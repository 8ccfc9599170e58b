//! File paths and search paths, as text: joining, parents, and lists of directories.
//!
//! Paths are written with `/`, as on macOS.

use crate::text::{
    chars_of, has_prefix, lead_len, lemma_lead_len, lemma_lead_len_is, opt_str, opt_text,
    other_than, split, texts,
};
use vstd::prelude::*;

verus! {

/// Directories that programs are often installed in but that an application started from the
/// Finder may not have on its `PATH`.
pub const EXTRA_BIN_DIRS: [&'static str; 2] = ["/usr/local/bin", "/opt/homebrew/bin"];

/// The path of `name` seen from `dir`: `name` itself if it is absolute.
pub open spec fn join_path(dir: Seq<char>, name: Seq<char>) -> Seq<char> {
    if has_prefix(name, seq!['/']) {
        name
    } else if dir.len() == 0 || dir.last() == '/' {
        dir + name
    } else {
        dir + seq!['/'] + name
    }
}

/// What `std::path::Path::parent` gives of a path, on a system that separates paths with `/`.
pub uninterp spec fn path_parent(path: Seq<char>) -> Option<Seq<char>>;

/// The predicate that holds of a text with something in it.
pub open spec fn some_text() -> spec_fn(Seq<char>) -> bool {
    |s: Seq<char>| s.len() > 0
}

/// The directories that a search path names: its pieces between colons, empty ones left out.
pub open spec fn path_dirs(path: Seq<char>) -> Seq<Seq<char>> {
    split(path, ':').filter(some_text())
}

/// The directories of a search path that may be missing.
pub open spec fn opt_path_dirs(path: Option<Seq<char>>) -> Seq<Seq<char>> {
    match path {
        Some(p) => path_dirs(p),
        None => Seq::empty(),
    }
}

/// The fallback directories.
pub open spec fn extra_dirs() -> Seq<Seq<char>> {
    seq!["/usr/local/bin"@, "/opt/homebrew/bin"@]
}

/// The texts of `list` with `sep` between them.
pub open spec fn join_with(list: Seq<Seq<char>>, sep: char) -> Seq<char>
    decreases list.len(),
{
    if list.len() == 0 {
        Seq::empty()
    } else if list.len() == 1 {
        list[0]
    } else {
        join_with(list.drop_last(), sep) + seq![sep] + list.last()
    }
}

/// The search path for a child process: `dirs` first, then what was inherited.
pub open spec fn child_path_text(dirs: Seq<Seq<char>>, inherited: Option<Seq<char>>) -> Seq<char> {
    match inherited {
        Some(p) => join_with(dirs.push(p), ':'),
        None => join_with(dirs, ':'),
    }
}

/// Joins a directory and a name.
pub fn join(dir: &str, name: &str) -> (r: String)
    ensures
        r@ == join_path(dir@, name@),
{
    let d: Vec<char> = chars_of(dir);
    let n: Vec<char> = chars_of(name);
    proof {
        reveal_strlit("/");
        assert("/"@ =~= seq!['/']);
        if n@.len() > 0 {
            assert(n@.take(1) =~= seq![n@[0]]);
        }
        assert(seq!['/'][0] == '/');
    }
    if n.len() > 0 && n[0] == '/' {
        return name.to_owned();
    }
    let mut r: String = dir.to_owned();
    if d.len() > 0 && d[d.len() - 1] != '/' {
        r.append("/");
    }
    r.append(name);
    r
}

/// The parent of a path, by `std::path::Path::parent`.
///
/// The contract claims that the parent depends on the path alone, that a path made of a directory
/// and a file name has that directory for its parent, which is the root for a file in it and the
/// empty path for a bare name, and that neither the root nor the empty path has a parent. It
/// leaves out directories and names that the function would normalise: those with a needless
/// slash or a `.` component at their end, and the name `.`.
#[verifier::external_body]
pub(crate) fn parent_of(path: &str) -> (r: Option<String>)
    ensures
        opt_text(r) == path_parent(path@),
        forall|dir: Seq<char>, name: Seq<char>| #[trigger]
            plain_dir(dir) && #[trigger] plain_name(name) && path@ == join_path(dir, name)
                ==> opt_text(r) == Some(dir),
        path@.len() == 0 || path@ == seq!['/'] ==> r is None,
{
    std::path::Path::new(path).parent().map(|p| p.display().to_string())
}

/// A directory written without a needless slash or a `.` component at its end: the empty path,
/// the root, or one below.
pub open spec fn plain_dir(dir: Seq<char>) -> bool {
    ||| dir.len() == 0
    ||| dir == seq!['/']
    ||| {
        &&& dir.last() != '/'
        &&& dir.len() >= 2 ==> !(dir.last() == '.' && dir[dir.len() - 2] == '/')
    }
}

/// A file name.
pub open spec fn plain_name(name: Seq<char>) -> bool {
    &&& name.len() > 0
    &&& !name.contains('/')
    &&& name != seq!['.']
}

/// Splits a search path into its directories, in order; empty pieces are skipped.
pub fn dirs_from_path(path_env: &str) -> (r: Vec<String>)
    ensures
        texts(r@) == path_dirs(path_env@),
{
    let cs: Vec<char> = chars_of(path_env);
    let n: usize = cs.len();
    let mut r: Vec<String> = Vec::new();
    let mut start: usize = 0;
    let ghost s = path_env@;
    proof {
        assert(s.skip(0) =~= s);
        assert(texts(r@) + path_dirs(s) =~= path_dirs(s));
    }
    loop
        invariant_except_break
            start <= n,
            n == cs@.len(),
            cs@ == path_env@,
            s == path_env@,
            texts(r@) + path_dirs(s.skip(start as int)) == path_dirs(s),
        ensures
            texts(r@) == path_dirs(path_env@),
        decreases n - start,
    {
        let mut end: usize = start;
        while end < n && cs[end] != ':'
            invariant
                start <= end <= n,
                n == cs@.len(),
                cs@ == s,
                forall|j: int| start <= j < end ==> s[j] != ':',
            decreases n - end,
        {
            end = end + 1;
        }
        let ghost rest = s.skip(start as int);
        let ghost piece = s.subrange(start as int, end as int);
        let ghost before = texts(r@);
        proof {
            assert(rest.take(end - start) =~= piece);
            assert forall|i: int| 0 <= i < end - start implies other_than(':')(
                #[trigger] rest[i],
            ) by {
                assert(rest[i] == s[start + i]);
            }
            lemma_lead_len_is(rest, other_than(':'), end - start);
            lemma_one_text(piece);
        }
        if end > start {
            r.push(path_env.substring_char(start, end).to_owned());
        }
        proof {
            assert(texts(r@) =~= before + seq![piece].filter(some_text()));
        }
        if end == n {
            proof {
                assert(rest =~= piece);
                assert(split(rest, ':') == seq![piece]);
            }
            break;
        }
        proof {
            let tail = s.skip(end + 1);
            assert(rest.skip(end - start + 1) =~= tail);
            assert(split(rest, ':') == seq![piece] + split(tail, ':'));
            Seq::filter_distributes_over_add(seq![piece], split(tail, ':'), some_text());
            assert(texts(r@) + path_dirs(tail) =~= before + path_dirs(rest));
        }
        start = end + 1;
    }
    r
}

/// Filtering a single text.
proof fn lemma_one_text(x: Seq<char>)
    ensures
        seq![x].filter(some_text()) == (if x.len() > 0 {
            seq![x]
        } else {
            Seq::empty()
        }),
{
    reveal(Seq::filter);
    assert(seq![x].drop_last() =~= Seq::<Seq<char>>::empty());
    assert(seq![x].drop_last().filter(some_text()) =~= Seq::<Seq<char>>::empty());
    assert(seq![x].filter(some_text()) =~= (if x.len() > 0 {
        seq![x]
    } else {
        Seq::empty()
    }));
}

/// The fallback directories, as strings.
pub fn extra_bin_dirs() -> (r: Vec<String>)
    ensures
        texts(r@) == extra_dirs(),
{
    let mut r: Vec<String> = Vec::new();
    r.push(EXTRA_BIN_DIRS[0].to_owned());
    r.push(EXTRA_BIN_DIRS[1].to_owned());
    proof {
        assert(texts(r@) =~= extra_dirs());
    }
    r
}

/// Appends copies of `more` to `dirs`.
pub fn append_dirs(dirs: &mut Vec<String>, more: &[String])
    ensures
        texts(final(dirs)@) == texts(old(dirs)@) + texts(more@),
{
    let mut i: usize = 0;
    let ghost before = texts(dirs@);
    while i < more.len()
        invariant
            i <= more.len(),
            texts(dirs@) == before + texts(more@).take(i as int),
        decreases more.len() - i,
    {
        let ghost so_far = texts(dirs@);
        dirs.push(more[i].as_str().to_owned());
        proof {
            assert(texts(dirs@) =~= so_far.push(more@[i as int]@));
            assert(texts(dirs@) =~= before + texts(more@).take(i + 1));
        }
        i = i + 1;
    }
    proof {
        assert(texts(more@).take(i as int) =~= texts(more@));
    }
}

/// The directories to look for programs in: those of the inherited search path, then the
/// fallback directories.
pub fn search_dirs(path_env: Option<&str>) -> (r: Vec<String>)
    ensures
        texts(r@) == opt_path_dirs(opt_str(path_env)) + extra_dirs(),
{
    let extra: Vec<String> = extra_bin_dirs();
    search_dirs_with(path_env, extra.as_slice())
}

/// The directories of the inherited search path, then `extra`.
pub fn search_dirs_with(path_env: Option<&str>, extra: &[String]) -> (r: Vec<String>)
    ensures
        texts(r@) == opt_path_dirs(opt_str(path_env)) + texts(extra@),
{
    let mut dirs: Vec<String> = match path_env {
        Some(p) => dirs_from_path(p),
        None => Vec::new(),
    };
    proof {
        assert(texts(dirs@) =~= opt_path_dirs(opt_str(path_env)));
    }
    append_dirs(&mut dirs, extra);
    dirs
}

/// The search path for a child process: `dirs` first, so that the programs found there are
/// found there again, then what was inherited.
pub fn child_path(dirs: &[String], inherited: Option<&str>) -> (r: String)
    ensures
        r@ == child_path_text(texts(dirs@), opt_str(inherited)),
{
    let mut parts: Vec<String> = Vec::new();
    append_dirs(&mut parts, dirs);
    match inherited {
        Some(p) => {
            let ghost so_far = texts(parts@);
            parts.push(p.to_owned());
            proof {
                assert(texts(parts@) =~= so_far.push(p@));
            }
        },
        None => {},
    }
    proof {
        assert(Seq::<Seq<char>>::empty() + texts(dirs@) =~= texts(dirs@));
    }
    let ghost all = texts(parts@);
    let mut r: String = String::new();
    let mut i: usize = 0;
    while i < parts.len()
        invariant
            i <= parts.len(),
            all == texts(parts@),
            r@ == join_with(all.take(i as int), ':'),
        decreases parts.len() - i,
    {
        proof {
            reveal_strlit(":");
            assert(":"@ =~= seq![':']);
            assert(all.take(i + 1).drop_last() =~= all.take(i as int));
            assert(all.take(i + 1).last() == parts@[i as int]@);
        }
        if i > 0 {
            r.append(":");
        }
        r.append(parts[i].as_str());
        proof {
            assert(r@ =~= join_with(all.take(i + 1), ':'));
        }
        i = i + 1;
    }
    proof {
        assert(all.take(i as int) =~= all);
    }
    r
}

/// Splitting a text at a separator splits what stands on either side of it.
proof fn lemma_split_concat(a: Seq<char>, sep: char, b: Seq<char>)
    ensures
        split(a + seq![sep] + b, sep) == split(a, sep) + split(b, sep),
    decreases a.len(),
{
    let whole = a + seq![sep] + b;
    let n = lead_len(a, other_than(sep)) as int;
    lemma_lead_len(a, other_than(sep));
    assert forall|i: int| 0 <= i < n implies other_than(sep)(#[trigger] whole[i]) by {
        assert(whole[i] == a[i]);
    }
    assert(whole[n] == sep);
    lemma_lead_len_is(whole, other_than(sep), n);
    assert(whole.take(n) =~= a.take(n));
    if n == a.len() {
        assert(a.take(n) =~= a);
        assert(whole.skip(n + 1) =~= b);
    } else {
        assert(whole.skip(n + 1) =~= a.skip(n + 1) + seq![sep] + b);
        lemma_split_concat(a.skip(n + 1), sep, b);
        assert(split(whole, sep) =~= split(a, sep) + split(b, sep));
    }
}

/// A text without the separator is its own only piece.
proof fn lemma_split_whole(s: Seq<char>, sep: char)
    requires
        !s.contains(sep),
    ensures
        split(s, sep) == seq![s],
{
    assert forall|i: int| 0 <= i < s.len() implies other_than(sep)(#[trigger] s[i]) by {}
    lemma_lead_len_is(s, other_than(sep), s.len() as int);
}

/// Splitting what was joined gives the parts back.
proof fn lemma_split_join(list: Seq<Seq<char>>, sep: char)
    requires
        list.len() > 0,
        forall|i: int| 0 <= i < list.len() ==> !(#[trigger] list[i]).contains(sep),
    ensures
        split(join_with(list, sep), sep) == list,
    decreases list.len(),
{
    lemma_split_whole(list.last(), sep);
    if list.len() == 1 {
        assert(list =~= seq![list[0]]);
    } else {
        lemma_split_join(list.drop_last(), sep);
        lemma_split_concat(join_with(list.drop_last(), sep), sep, list.last());
        assert(list.drop_last() + seq![list.last()] =~= list);
    }
}

/// The directories that a search path names are not empty and hold no colon.
pub proof fn path_dirs_are_proper(path: Seq<char>, i: int)
    requires
        0 <= i < path_dirs(path).len(),
    ensures
        path_dirs(path)[i].len() > 0,
        !path_dirs(path)[i].contains(':'),
    decreases path.len(),
{
    split(path, ':').lemma_filter_pred(some_text(), i);
    let n = lead_len(path, other_than(':')) as int;
    lemma_lead_len(path, other_than(':'));
    let piece = path.take(n);
    assert forall|j: int| 0 <= j < piece.len() implies piece[j] != ':' by {
        assert(other_than(':')(path[j]));
    }
    lemma_one_text(piece);
    if n == path.len() {
        assert(piece =~= path);
    } else {
        let tail = path.skip(n + 1);
        Seq::filter_distributes_over_add(seq![piece], split(tail, ':'), some_text());
        let k = seq![piece].filter(some_text()).len() as int;
        if i >= k {
            assert(path_dirs(path)[i] == path_dirs(tail)[i - k]);
            path_dirs_are_proper(tail, i - k);
        }
    }
}

/// A child process that splits its search path looks into `dirs` first, in their order, and
/// then where the parent looked.
pub proof fn child_path_is_searched_in_order(
    dirs: Seq<Seq<char>>,
    inherited: Option<Seq<char>>,
)
    requires
        forall|i: int| 0 <= i < dirs.len() ==> !(#[trigger] dirs[i]).contains(':'),
    ensures
        path_dirs(child_path_text(dirs, inherited)) == dirs.filter(some_text()) + opt_path_dirs(
            inherited,
        ),
{
    match inherited {
        Some(p) => {
            if dirs.len() == 0 {
                assert(dirs.push(p) =~= seq![p]);
                reveal(Seq::filter);
                assert(dirs.filter(some_text()) + path_dirs(p) =~= path_dirs(p));
            } else {
                assert(dirs.push(p).drop_last() =~= dirs);
                lemma_split_concat(join_with(dirs, ':'), ':', p);
                lemma_split_join(dirs, ':');
                Seq::filter_distributes_over_add(dirs, split(p, ':'), some_text());
            }
        },
        None => {
            if dirs.len() == 0 {
                reveal(Seq::filter);
                lemma_split_whole(Seq::empty(), ':');
                lemma_one_text(Seq::empty());
                assert(path_dirs(child_path_text(dirs, inherited)) =~= dirs.filter(some_text())
                    + opt_path_dirs(inherited));
            } else {
                lemma_split_join(dirs, ':');
                assert(dirs.filter(some_text()) + opt_path_dirs(None) =~= dirs.filter(
                    some_text(),
                ));
            }
        },
    }
}

/// A name that is not absolute is put behind the directory, with one slash between them unless
/// the directory is empty or ends in one; an absolute name stays what it is.
pub proof fn names_are_put_behind_directories(dir: Seq<char>, name: Seq<char>)
    ensures
        name.len() > 0 && name[0] == '/' ==> join_path(dir, name) == name,
        !(name.len() > 0 && name[0] == '/') ==> {
            &&& dir.len() == 0 ==> join_path(dir, name) == name
            &&& dir.len() > 0 && dir.last() == '/' ==> join_path(dir, name) == dir + name
            &&& dir.len() > 0 && dir.last() != '/' ==> join_path(dir, name) == dir + seq!['/']
                + name
        },
{
    assert(seq!['/'][0] == '/');
    if name.len() > 0 {
        assert(name.take(1) =~= seq![name[0]]);
    }
    if name.len() > 0 && name.take(1) == seq!['/'] {
        assert(name.take(1)[0] == '/');
    }
    if dir.len() == 0 {
        assert(dir + name =~= name);
    }
}

/// Joining puts the separator between the parts and nowhere else.
pub proof fn joining_adds_separators_between(list: Seq<Seq<char>>, last: Seq<char>, sep: char)
    ensures
        join_with(Seq::<Seq<char>>::empty(), sep) == Seq::<char>::empty(),
        join_with(seq![last], sep) == last,
        list.len() > 0 ==> join_with(list.push(last), sep) == join_with(list, sep) + seq![sep]
            + last,
{
    assert(list.push(last).drop_last() =~= list);
}

/// The pieces of a text hold no separator, and joined again they are the text.
pub proof fn pieces_make_up_the_text(s: Seq<char>, sep: char)
    ensures
        split(s, sep).len() > 0,
        forall|i: int| 0 <= i < split(s, sep).len() ==> !(#[trigger] split(s, sep)[i]).contains(sep),
        join_with(split(s, sep), sep) == s,
    decreases s.len(),
{
    let n = lead_len(s, other_than(sep)) as int;
    lemma_lead_len(s, other_than(sep));
    let piece = s.take(n);
    assert forall|j: int| 0 <= j < piece.len() implies piece[j] != sep by {
        assert(other_than(sep)(s[j]));
    }
    assert(!piece.contains(sep));
    if n == s.len() {
        assert(piece =~= s);
        assert(split(s, sep) =~= seq![s]);
    } else {
        let tail = s.skip(n + 1);
        pieces_make_up_the_text(tail, sep);
        let pieces = split(tail, sep);
        assert(split(s, sep) == seq![piece] + pieces);
        assert(!other_than(sep)(s[n]));
        assert(s =~= piece + seq![sep] + tail);
        lemma_join_front(piece, pieces, sep);
    }
}

/// Joining can be done from the front as well.
proof fn lemma_join_front(first: Seq<char>, rest: Seq<Seq<char>>, sep: char)
    requires
        rest.len() > 0,
    ensures
        join_with(seq![first] + rest, sep) == first + seq![sep] + join_with(rest, sep),
    decreases rest.len(),
{
    let all = seq![first] + rest;
    assert(all.drop_last() =~= seq![first] + rest.drop_last());
    assert(all.last() == rest.last());
    if rest.len() == 1 {
        assert(join_with(rest, sep) == rest[0]);
        assert(join_with(seq![first], sep) == first);
        assert(all.drop_last() =~= seq![first]);
        assert(join_with(all, sep) =~= first + seq![sep] + join_with(rest, sep));
    } else {
        lemma_join_front(first, rest.drop_last(), sep);
        assert(join_with(all, sep) =~= first + seq![sep] + join_with(rest, sep));
    }
}

/// A search path that was joined from directories names those directories, all of them and in
/// their order.
pub proof fn search_path_names_its_directories(dirs: Seq<Seq<char>>)
    requires
        forall|i: int|
            0 <= i < dirs.len() ==> (#[trigger] dirs[i]).len() > 0 && !dirs[i].contains(':'),
    ensures
        path_dirs(join_with(dirs, ':')) == dirs,
        opt_path_dirs(Some(join_with(dirs, ':'))) == dirs,
        opt_path_dirs(None) == Seq::<Seq<char>>::empty(),
{
    child_path_is_searched_in_order(dirs, None);
    lemma_all_named(dirs);
    assert(dirs + Seq::<Seq<char>>::empty() =~= dirs);
}

proof fn lemma_all_named(dirs: Seq<Seq<char>>)
    requires
        forall|i: int| 0 <= i < dirs.len() ==> (#[trigger] dirs[i]).len() > 0,
    ensures
        dirs.filter(some_text()) == dirs,
    decreases dirs.len(),
{
    reveal(Seq::filter);
    if dirs.len() > 0 {
        let front = dirs.drop_last();
        assert forall|i: int| 0 <= i < front.len() implies (#[trigger] front[i]).len() > 0 by {
            assert(front[i] == dirs[i]);
        }
        lemma_all_named(front);
        assert(dirs[dirs.len() - 1].len() > 0);
        assert(dirs.filter(some_text()) =~= front.push(dirs.last()));
        assert(front.push(dirs.last()) =~= dirs);
    } else {
        assert(dirs.filter(some_text()) =~= dirs);
    }
}

/// A search path names what is named on either side of a colon; a piece without a colon is a
/// directory, unless it is empty.
pub proof fn search_paths_add_up(a: Seq<char>, b: Seq<char>)
    ensures
        path_dirs(a + seq![':'] + b) == path_dirs(a) + path_dirs(b),
        path_dirs(Seq::<char>::empty()) == Seq::<Seq<char>>::empty(),
        a.len() > 0 && !a.contains(':') ==> path_dirs(a) == seq![a],
        opt_path_dirs(Some(a)) == path_dirs(a),
        opt_path_dirs(None) == Seq::<Seq<char>>::empty(),
{
    lemma_split_concat(a, ':', b);
    Seq::filter_distributes_over_add(split(a, ':'), split(b, ':'), some_text());
    lemma_split_whole(Seq::empty(), ':');
    lemma_one_text(Seq::empty());
    if !a.contains(':') {
        lemma_split_whole(a, ':');
        lemma_one_text(a);
    }
}

/// The fallback directories are the two where programs are installed by hand and by Homebrew.
pub proof fn fallback_directories_are_known()
    ensures
        extra_dirs() == seq!["/usr/local/bin"@, "/opt/homebrew/bin"@],
{
}

/// The search path of a child is the directories with colons between them, and behind them what
/// was inherited.
pub proof fn child_path_appends_the_inherited(dirs: Seq<Seq<char>>, inherited: Seq<char>)
    ensures
        child_path_text(dirs, None) == join_with(dirs, ':'),
        dirs.len() == 0 ==> child_path_text(dirs, Some(inherited)) == inherited,
        dirs.len() > 0 ==> child_path_text(dirs, Some(inherited)) == join_with(dirs, ':') + seq![
            ':',
        ] + inherited,
{
    joining_adds_separators_between(dirs, inherited, ':');
    if dirs.len() == 0 {
        assert(dirs.push(inherited) =~= seq![inherited]);
    }
}

} // verus!
