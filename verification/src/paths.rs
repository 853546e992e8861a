//! Paths: their plain form, the items of a drop, and the files below a directory.
use crate::text::{chars_of, split_text, strip_prefix, trim_text};
use vstd::prelude::*;

verus! {

/// The front of an extended-length path.
pub const VERBATIM_PREFIX: &'static str = "\\\\?\\";

/// The front of the address of a file.
pub const FILE_SCHEME: &'static str = "file://";

/// A path without the front of an extended-length one.
pub open spec fn plain_path(path: Seq<char>) -> Seq<char> {
    if crate::text::begins_with(path, VERBATIM_PREFIX@) {
        path.subrange(VERBATIM_PREFIX@.len() as int, path.len() as int)
    } else {
        path
    }
}

/// Takes the front of an extended-length path off.
pub fn sanitize_db_path(path: &str) -> (plain: String)
    ensures
        plain@ == plain_path(path@),
        path@ == "\\\\?\\"@ + plain@ || (plain@ == path@ && forall|rest: Seq<char>|
            path@ != #[trigger] ("\\\\?\\"@ + rest)),
{
    match strip_prefix(path, VERBATIM_PREFIX) {
        Some(rest) => rest,
        None => path.to_string(),
    }
}

/// Whether a line of an address list holds an address: it is neither blank nor a comment.
pub open spec fn is_address(line: Seq<char>) -> bool {
    line.len() > 0 && line[0] != '#'
}

/// The addresses on some lines.
pub open spec fn addresses(lines: Seq<Seq<char>>) -> Seq<Seq<char>>
    decreases lines.len(),
{
    if lines.len() == 0 {
        Seq::empty()
    } else {
        let line = crate::text::trimmed(lines.last());
        if is_address(line) {
            addresses(lines.drop_last()).push(line)
        } else {
            addresses(lines.drop_last())
        }
    }
}

/// The addresses in a list with one to a line.
pub fn parse_uri_list(uri_data: &str) -> (uris: Vec<String>)
    ensures
        crate::text::texts(uris@) == addresses(crate::text::segments(uri_data@, '\n')),
        uris@.len() == addresses(crate::text::segments(uri_data@, '\n')).len(),
        forall|i: int|
            0 <= i < uris@.len() ==> (#[trigger] uris@[i])@ == addresses(
                crate::text::segments(uri_data@, '\n'),
            )[i],
{
    let lines = split_text(uri_data, '\n');
    let ghost all = crate::text::texts(lines@);
    let mut uris: Vec<String> = Vec::new();
    let mut i: usize = 0;
    proof {
        assert(crate::text::texts(uris@) =~= Seq::empty());
        assert(all.subrange(0, 0) =~= Seq::empty());
    }
    while i < lines.len()
        invariant
            i <= lines@.len(),
            all == crate::text::texts(lines@),
            crate::text::texts(uris@) == addresses(all.subrange(0, i as int)),
        decreases lines.len() - i,
    {
        proof {
            assert(all.subrange(0, i + 1).drop_last() =~= all.subrange(0, i as int));
        }
        let line = trim_text(lines[i].as_str());
        let chars = chars_of(line.as_str());
        if chars.len() > 0 && chars[0] != '#' {
            let ghost before = crate::text::texts(uris@);
            uris.push(line);
            proof {
                assert(crate::text::texts(uris@) =~= before.push(line@));
            }
        }
        i += 1;
    }
    proof {
        assert(all.subrange(0, i as int) =~= all);
        assert forall|i: int| 0 <= i < uris@.len() implies (#[trigger] uris@[i])@ == addresses(
            crate::text::segments(uri_data@, '\n'),
        )[i] by {
            assert(crate::text::texts(uris@)[i] == uris@[i]@);
        }
    }
    uris
}

/// A text with every slash turned round.
pub open spec fn backslashed(text: Seq<char>) -> Seq<char> {
    Seq::new(
        text.len(),
        |i: int|
            if text[i] == '/' {
                '\\'
            } else {
                text[i]
            },
    )
}

/// A text without the slashes at its front.
pub open spec fn unrooted(text: Seq<char>) -> Seq<char>
    decreases text.len(),
{
    if text.len() > 0 && text[0] == '/' {
        unrooted(text.drop_first())
    } else {
        text
    }
}

/// The path that the address of a file stands for, its escapes undone, on either kind of system.
pub open spec fn local_path(address: Seq<char>, windows: bool) -> Seq<char> {
    if !windows {
        plain_path(address)
    } else {
        let drive = unrooted(address);
        if drive.len() >= 2 && drive[1] == ':' {
            plain_path(backslashed(drive))
        } else {
            plain_path(backslashed(address))
        }
    }
}

/// Turns every slash round.
fn turn_slashes(chars: &[char]) -> (text: String)
    ensures
        text@ == backslashed(chars@),
{
    let mut text = String::new();
    let mut i: usize = 0;
    while i < chars.len()
        invariant
            i <= chars@.len(),
            text@ == backslashed(chars@).subrange(0, i as int),
        decreases chars.len() - i,
    {
        text.push(if chars[i] == '/' { '\\' } else { chars[i] });
        proof {
            assert(text@ =~= backslashed(chars@).subrange(0, i + 1));
        }
        i += 1;
    }
    proof {
        assert(backslashed(chars@).subrange(0, i as int) =~= backslashed(chars@));
    }
    text
}

/// The path that the address of a file stands for, its escapes undone.
pub fn address_path(address: &str, windows: bool) -> (path: String)
    ensures
        path@ == local_path(address@, windows),
{
    if !windows {
        return sanitize_db_path(address);
    }
    let chars = chars_of(address);
    let mut from: usize = 0;
    proof {
        assert(address@.subrange(0, address@.len() as int) =~= address@);
    }
    while from < chars.len() && chars[from] == '/'
        invariant
            from <= chars@.len(),
            chars@ == address@,
            unrooted(address@) == unrooted(address@.subrange(from as int, address@.len() as int)),
        ensures
            from <= chars@.len(),
            unrooted(address@) == address@.subrange(from as int, address@.len() as int),
        decreases chars.len() - from,
    {
        proof {
            assert(address@.subrange(from as int, address@.len() as int).drop_first()
                =~= address@.subrange(from + 1, address@.len() as int));
        }
        from += 1;
    }
    let drive = vstd::slice::slice_subrange(chars.as_slice(), from, chars.len());
    if drive.len() >= 2 && drive[1] == ':' {
        sanitize_db_path(turn_slashes(drive).as_str())
    } else {
        sanitize_db_path(turn_slashes(chars.as_slice()).as_str())
    }
}

/// What an address leads to: a path that the desktop knows, or one read off the address.
pub enum UriTarget<P> {
    Native(P),
    Local(String),
}

/// The part of an address behind the scheme of files.
pub fn file_address(uri: &str) -> (rest: Option<String>)
    ensures
        rest is Some <==> crate::text::begins_with(uri@, FILE_SCHEME@),
        rest matches Some(r) ==> r@ == uri@.subrange(FILE_SCHEME@.len() as int, uri@.len() as int),
        rest matches Some(r) ==> uri@ == "file://"@ + r@,
        rest is None ==> forall|r: Seq<char>| uri@ != #[trigger] ("file://"@ + r),
{
    strip_prefix(uri, FILE_SCHEME)
}

/// Resolves an address: the path that the desktop knows for it, or else, for the address of a file,
/// the path in it, with the escapes undone where that was possible.
pub fn resolve_uri<P>(uri: &str, native: Option<P>, unescaped: Option<&str>, windows: bool) -> (target:
    Option<UriTarget<P>>)
    ensures
        match native {
            Some(path) => target == Some(UriTarget::Native(path)),
            None => if crate::text::begins_with(uri@, FILE_SCHEME@) {
                let address = match unescaped {
                    Some(text) => text@,
                    None => uri@.subrange(FILE_SCHEME@.len() as int, uri@.len() as int),
                };
                target matches Some(UriTarget::Local(path)) && path@ == local_path(address, windows)
            } else {
                target is None
            },
        },
{
    match native {
        Some(path) => Some(UriTarget::Native(path)),
        None => match file_address(uri) {
            Some(rest) => match unescaped {
                Some(text) => Some(UriTarget::Local(address_path(text, windows))),
                None => Some(UriTarget::Local(address_path(rest.as_str(), windows))),
            },
            None => None,
        },
    }
}

/// The paths of a drop: those of its list of files, or its single file, or those in either of its
/// texts, whichever comes first with any. Without any the drop is refused.
pub fn dropped_paths<P>(
    list: Vec<P>,
    single: Option<P>,
    text: Vec<P>,
    other_text: Vec<P>,
) -> (paths: Option<Vec<P>>)
    ensures
        if list@.len() > 0 {
            paths == Some(list)
        } else if single is Some {
            paths matches Some(p) && p@ == seq![single->0]
        } else if text@.len() > 0 {
            paths == Some(text)
        } else if other_text@.len() > 0 {
            paths == Some(other_text)
        } else {
            paths is None
        },
{
    if list.len() > 0 {
        return Some(list);
    }
    match single {
        Some(path) => {
            let mut paths: Vec<P> = Vec::new();
            paths.push(path);
            Some(paths)
        },
        None => if text.len() > 0 {
            Some(text)
        } else if other_text.len() > 0 {
            Some(other_text)
        } else {
            None
        },
    }
}

/// A walk through some paths and the directories among them, down to the files.
pub struct PathWalk<P> {
    stack: Vec<P>,
    found: Vec<P>,
}

/// A walk as a mathematical value: the paths still to be visited, the next one first, and the files
/// found.
#[verifier::ext_equal]
pub struct WalkView<P> {
    pub pending: Seq<P>,
    pub found: Seq<P>,
}

impl<P> View for PathWalk<P> {
    type V = WalkView<P>;

    closed spec fn view(&self) -> WalkView<P> {
        WalkView { pending: self.stack@.reverse(), found: self.found@ }
    }
}

/// What a path is: a directory with its entries, a file, or neither.
pub enum PathKind<P> {
    Directory(Vec<P>),
    File,
    Other,
}

/// What a path is, as a mathematical value.
pub enum KindView<P> {
    Directory(Seq<P>),
    File,
    Other,
}

impl<P> View for PathKind<P> {
    type V = KindView<P>;

    open spec fn view(&self) -> KindView<P> {
        match *self {
            PathKind::Directory(entries) => KindView::Directory(entries@),
            PathKind::File => KindView::File,
            PathKind::Other => KindView::Other,
        }
    }
}

/// The walk after a path was visited: the entries of a directory come next, before all else; a file
/// is found; anything else is passed over.
pub open spec fn visited<P>(walk: WalkView<P>, path: P, kind: KindView<P>) -> WalkView<P> {
    match kind {
        KindView::Directory(entries) => WalkView { pending: entries + walk.pending, ..walk },
        KindView::File => WalkView { found: walk.found.push(path), ..walk },
        KindView::Other => walk,
    }
}

/// The walk after the next path was taken off.
pub open spec fn next_taken<P>(walk: WalkView<P>) -> WalkView<P> {
    WalkView { pending: walk.pending.drop_first(), ..walk }
}

impl<P> PathWalk<P> {
    /// A walk that starts at some paths.
    pub fn begin(paths: Vec<P>) -> (walk: PathWalk<P>)
        ensures
            walk@ == (WalkView { pending: paths@, found: Seq::empty() }),
    {
        let mut walk = PathWalk { stack: Vec::new(), found: Vec::new() };
        walk.put_first(paths);
        proof {
            assert(walk@.pending =~= paths@);
        }
        walk
    }

    /// Puts some paths before all that are pending.
    fn put_first(&mut self, paths: Vec<P>)
        ensures
            final(self)@ == (WalkView { pending: paths@ + old(self)@.pending, ..old(self)@ }),
    {
        let mut rest = paths;
        let ghost before = self.stack@;
        while rest.len() > 0
            invariant
                rest@.len() <= paths@.len(),
                rest@ == paths@.subrange(0, rest@.len() as int),
                self.stack@ == before + paths@.subrange(
                    rest@.len() as int,
                    paths@.len() as int,
                ).reverse(),
                self.found == old(self).found,
                before == old(self).stack@,
            decreases rest.len(),
        {
            let ghost n = rest@.len() as int;
            match rest.pop() {
                Some(path) => {
                    self.stack.push(path);
                    proof {
                        assert(paths@.subrange(n - 1, paths@.len() as int).reverse()
                            =~= paths@.subrange(n, paths@.len() as int).reverse().push(path));
                    }
                },
                None => {},
            }
        }
        proof {
            assert(paths@.subrange(0, paths@.len() as int) =~= paths@);
            assert(self.stack@.reverse() =~= paths@ + before.reverse());
        }
    }

    /// The next path to visit, if any is left.
    pub fn next_path(&mut self) -> (path: Option<P>)
        ensures
            match path {
                Some(p) => {
                    &&& old(self)@.pending.len() > 0
                    &&& p == old(self)@.pending[0]
                    &&& final(self)@ == next_taken(old(self)@)
                    &&& final(self)@.pending == old(self)@.pending.drop_first()
                    &&& final(self)@.found == old(self)@.found
                },
                None => old(self)@.pending.len() == 0 && final(self)@ == old(self)@,
            },
    {
        let path = self.stack.pop();
        proof {
            if path is Some {
                assert(self.stack@.reverse() =~= old(self).stack@.reverse().drop_first());
            }
        }
        path
    }

    /// Goes on after a path was visited and found to be what it is.
    pub fn visit(&mut self, path: P, kind: PathKind<P>)
        ensures
            final(self)@ == visited(old(self)@, path, kind@),
            match kind {
                PathKind::Directory(entries) => final(self)@.pending == entries@
                    + old(self)@.pending && final(self)@.found == old(self)@.found,
                PathKind::File => final(self)@.pending == old(self)@.pending && final(self)@.found
                    == old(self)@.found.push(path),
                PathKind::Other => final(self)@ == old(self)@,
            },
    {
        match kind {
            PathKind::Directory(entries) => {
                self.put_first(entries);
            },
            PathKind::File => {
                self.found.push(path);
            },
            PathKind::Other => {},
        }
    }

    /// The files found, in the order in which they were.
    pub fn into_files(self) -> (files: Vec<P>)
        ensures
            files@ == self@.found,
    {
        self.found
    }
}

/// What lies at a path: a directory with what lies in it, a file, or neither.
pub enum PathTree<P> {
    Directory { path: P, entries: Seq<PathTree<P>> },
    File { path: P },
    Other { path: P },
}

impl<P> PathTree<P> {
    /// The path itself.
    pub open spec fn root(self) -> P {
        match self {
            PathTree::Directory { path, .. } => path,
            PathTree::File { path } => path,
            PathTree::Other { path } => path,
        }
    }

    /// What lies in the directory, if it is one.
    pub open spec fn inside(self) -> Seq<PathTree<P>> {
        match self {
            PathTree::Directory { entries, .. } => entries,
            _ => Seq::empty(),
        }
    }

    /// What the path is found to be when it is visited.
    pub open spec fn kind(self) -> KindView<P> {
        match self {
            PathTree::Directory { entries, .. } => KindView::Directory(roots(entries)),
            PathTree::File { .. } => KindView::File,
            PathTree::Other { .. } => KindView::Other,
        }
    }
}

/// The paths of some trees.
pub open spec fn roots<P>(forest: Seq<PathTree<P>>) -> Seq<P> {
    Seq::new(forest.len(), |i: int| forest[i].root())
}

/// How many paths there are in some trees.
pub open spec fn path_count<P>(forest: Seq<PathTree<P>>) -> nat
    decreases forest,
{
    if forest.len() == 0 {
        0
    } else {
        1 + inner_count(forest[0]) + path_count(forest.drop_first())
    }
}

/// How many paths there are below a path.
pub open spec fn inner_count<P>(tree: PathTree<P>) -> nat
    decreases tree,
{
    match tree {
        PathTree::Directory { entries, .. } => path_count(entries),
        _ => 0,
    }
}

/// The files in some trees, depth first and in the order of the entries.
pub open spec fn files_below<P>(forest: Seq<PathTree<P>>) -> Seq<P>
    decreases forest,
{
    if forest.len() == 0 {
        Seq::empty()
    } else {
        files_in(forest[0]) + files_below(forest.drop_first())
    }
}

/// The files at a path and below it.
pub open spec fn files_in<P>(tree: PathTree<P>) -> Seq<P>
    decreases tree,
{
    match tree {
        PathTree::Directory { entries, .. } => files_below(entries),
        PathTree::File { path } => seq![path],
        PathTree::Other { .. } => Seq::empty(),
    }
}

/// What is counted and found below a path is what lies in it.
pub proof fn lemma_inside<P>(tree: PathTree<P>)
    ensures
        inner_count(tree) == path_count(tree.inside()),
        files_in(tree) == (match tree {
            PathTree::File { path } => seq![path],
            _ => files_below(tree.inside()),
        }),
{
    reveal_with_fuel(inner_count, 2);
    reveal_with_fuel(path_count, 2);
    reveal_with_fuel(files_in, 2);
    reveal_with_fuel(files_below, 2);
}

/// The paths of trees side by side add up.
pub proof fn lemma_path_count_joined<P>(left: Seq<PathTree<P>>, right: Seq<PathTree<P>>)
    ensures
        path_count(left + right) == path_count(left) + path_count(right),
    decreases left.len(),
{
    if left.len() == 0 {
        assert(left + right =~= right);
    } else {
        assert((left + right).drop_first() =~= left.drop_first() + right);
        lemma_path_count_joined(left.drop_first(), right);
    }
}

/// The files of trees side by side are those of the one and then those of the other.
proof fn lemma_files_joined<P>(left: Seq<PathTree<P>>, right: Seq<PathTree<P>>)
    ensures
        files_below(left + right) == files_below(left) + files_below(right),
    decreases left.len(),
{
    if left.len() == 0 {
        assert(left + right =~= right);
        assert(files_below(left) + files_below(right) =~= files_below(right));
    } else {
        assert((left + right).drop_first() =~= left.drop_first() + right);
        lemma_files_joined(left.drop_first(), right);
        assert(files_in(left[0]) + (files_below(left.drop_first()) + files_below(right)) =~= (
        files_in(left[0]) + files_below(left.drop_first())) + files_below(right));
    }
}

/// A walk to its end: as long as a path is pending, it is taken off and visited for what it is.
pub open spec fn walked<P>(walk: WalkView<P>, forest: Seq<PathTree<P>>) -> WalkView<P>
    decreases path_count(forest),
{
    if forest.len() == 0 {
        walk
    } else {
        proof {
            lemma_inside(forest[0]);
            lemma_path_count_joined(forest[0].inside(), forest.drop_first());
        }
        walked(
            visited(next_taken(walk), walk.pending[0], forest[0].kind()),
            forest[0].inside() + forest.drop_first(),
        )
    }
}

/// A walk finds the files at its paths and below them, all of them, depth first and in the order of
/// the entries, and leaves nothing pending.
pub proof fn law_walk_finds_files<P>(walk: WalkView<P>, forest: Seq<PathTree<P>>)
    requires
        walk.pending == roots(forest),
    ensures
        walked(walk, forest) == (WalkView {
            pending: Seq::<P>::empty(),
            found: walk.found + files_below(forest),
        }),
    decreases path_count(forest),
{
    if forest.len() == 0 {
        assert(walked(walk, forest) =~= (WalkView {
            pending: Seq::<P>::empty(),
            found: walk.found + files_below(forest),
        }));
    } else {
        let tree = forest[0];
        let rest = forest.drop_first();
        let next = visited(next_taken(walk), walk.pending[0], tree.kind());
        lemma_inside(tree);
        lemma_path_count_joined(tree.inside(), rest);
        lemma_files_joined(tree.inside(), rest);
        reveal_with_fuel(files_below, 2);
        assert(next.pending =~= roots(tree.inside() + rest));
        law_walk_finds_files(next, tree.inside() + rest);
        assert(next.found + files_below(tree.inside() + rest) =~= walk.found + files_below(forest));
    }
}

/// A path written with the front of an extended-length one is the same path without it.
pub proof fn law_prefix_makes_no_difference(path: Seq<char>)
    requires
        !crate::text::begins_with(path, VERBATIM_PREFIX@),
    ensures
        plain_path(VERBATIM_PREFIX@ + path) == path,
        plain_path(path) == path,
{
    let long = VERBATIM_PREFIX@ + path;
    assert(long.subrange(0, VERBATIM_PREFIX@.len() as int) =~= VERBATIM_PREFIX@);
    assert(long.subrange(VERBATIM_PREFIX@.len() as int, long.len() as int) =~= path);
}

/// Every address of a list is a line of it without the white space around it, neither blank nor a
/// comment.
pub proof fn law_addresses_are_lines(lines: Seq<Seq<char>>, i: int)
    requires
        0 <= i < addresses(lines).len(),
    ensures
        addresses(lines).len() <= lines.len(),
        addresses(lines)[i].len() > 0,
        addresses(lines)[i][0] != '#',
        exists|j: int|
            0 <= j < lines.len() && addresses(lines)[i] == crate::text::trimmed(#[trigger] lines[j]),
    decreases lines.len(),
{
    let front = lines.drop_last();
    let last = lines.len() - 1;
    assert(lines.last() == lines[last]);
    lemma_fewer_addresses(lines);
    if i < addresses(front).len() {
        law_addresses_are_lines(front, i);
        let j = choose|j: int|
            0 <= j < front.len() && addresses(front)[i] == crate::text::trimmed(#[trigger] front[j]);
        assert(lines[j] == front[j]);
    } else {
        assert(addresses(lines)[i] == crate::text::trimmed(lines[last]));
    }
}

/// There are no more addresses than lines.
proof fn lemma_fewer_addresses(lines: Seq<Seq<char>>)
    ensures
        addresses(lines).len() <= lines.len(),
    decreases lines.len(),
{
    if lines.len() > 0 {
        lemma_fewer_addresses(lines.drop_last());
    }
}

/// Every line of a list that is neither blank nor a comment is an address, and it comes behind those of
/// the lines before it: the addresses of two lists, one behind the other, are those of the one and then
/// those of the other.
pub proof fn law_no_address_is_left_out(lines: Seq<Seq<char>>, more: Seq<Seq<char>>, line: Seq<char>)
    ensures
        addresses(lines + more) == addresses(lines) + addresses(more),
        crate::text::trimmed(line).len() > 0 && crate::text::trimmed(line)[0] != '#' ==> addresses(
            seq![line],
        ) == seq![crate::text::trimmed(line)],
        crate::text::trimmed(line).len() == 0 || crate::text::trimmed(line)[0] == '#' ==> addresses(
            seq![line],
        ).len() == 0,
    decreases more.len(),
{
    assert(seq![line].drop_last() =~= Seq::empty());
    assert(addresses(seq![line].drop_last()) =~= Seq::<Seq<char>>::empty());
    if crate::text::trimmed(line).len() > 0 && crate::text::trimmed(line)[0] != '#' {
        assert(addresses(seq![line]) =~= seq![crate::text::trimmed(line)]);
    }
    if more.len() == 0 {
        assert(lines + more =~= lines);
        assert(addresses(lines) + addresses(more) =~= addresses(lines));
    } else {
        let front = more.drop_last();
        law_no_address_is_left_out(lines, front, line);
        assert((lines + more).drop_last() =~= lines + front);
        assert((lines + more).last() == more.last());
        assert(addresses(lines + more) =~= addresses(lines) + addresses(more));
    }
}

/// Text in which every slash is turned round has no slash left, and every other character as it was.
pub proof fn law_slashes_turned(text: Seq<char>)
    ensures
        backslashed(text).len() == text.len(),
        forall|i: int|
            0 <= i < text.len() ==> #[trigger] backslashed(text)[i] == (if text[i] == '/' {
                '\\'
            } else {
                text[i]
            }),
{
}

/// The path of an address is the address itself on systems with slashes. On the others it is written
/// with backslashes, and where a drive follows the slashes at its front it begins with the drive.
pub proof fn law_local_path(address: Seq<char>, slashes: nat)
    requires
        slashes <= address.len(),
        forall|i: int| 0 <= i < slashes ==> #[trigger] address[i] == '/',
        slashes < address.len() ==> address[slashes as int] != '/',
    ensures
        local_path(address, false) == plain_path(address),
        ({
            let drive = address.subrange(slashes as int, address.len() as int);
            local_path(address, true) == plain_path(
                backslashed(
                    if drive.len() >= 2 && drive[1] == ':' {
                        drive
                    } else {
                        address
                    },
                ),
            )
        }),
{
    lemma_unrooted(address, slashes);
}

/// The slashes at the front of a text are what is taken off.
proof fn lemma_unrooted(text: Seq<char>, slashes: nat)
    requires
        slashes <= text.len(),
        forall|i: int| 0 <= i < slashes ==> #[trigger] text[i] == '/',
        slashes < text.len() ==> text[slashes as int] != '/',
    ensures
        unrooted(text) == text.subrange(slashes as int, text.len() as int),
    decreases slashes,
{
    if slashes > 0 {
        let rest = text.drop_first();
        assert(text[0] == '/');
        assert forall|i: int| 0 <= i < slashes - 1 implies #[trigger] rest[i] == '/' by {
            assert(rest[i] == text[i + 1]);
        }
        lemma_unrooted(rest, (slashes - 1) as nat);
        assert(rest.subrange(slashes - 1, rest.len() as int) =~= text.subrange(
            slashes as int,
            text.len() as int,
        ));
    } else {
        assert(text.subrange(0, text.len() as int) =~= text);
    }
}

/// The files of some trees: a file is itself, a directory has those of its entries, anything else has
/// none, and trees side by side have those of the one and then those of the other.
pub proof fn law_files_below<P>(
    path: P,
    entries: Seq<PathTree<P>>,
    left: Seq<PathTree<P>>,
    right: Seq<PathTree<P>>,
)
    ensures
        files_below(Seq::<PathTree<P>>::empty()).len() == 0,
        files_below(seq![PathTree::File { path }]) == seq![path],
        files_below(seq![PathTree::Directory { path, entries }]) == files_below(entries),
        files_below(seq![PathTree::Other { path }]).len() == 0,
        files_below(left + right) == files_below(left) + files_below(right),
{
    lemma_files_joined(left, right);
    let file = seq![PathTree::File { path }];
    let directory = seq![PathTree::Directory { path, entries }];
    let other = seq![PathTree::<P>::Other { path }];
    lemma_inside(file[0]);
    lemma_inside(directory[0]);
    lemma_inside(other[0]);
    assert(file.drop_first() =~= Seq::empty());
    assert(directory.drop_first() =~= Seq::empty());
    assert(other.drop_first() =~= Seq::empty());
    assert(files_below(file) =~= seq![path]);
    assert(files_below(directory) =~= files_below(entries));
    assert(files_below(other) =~= files_below(Seq::<PathTree<P>>::empty()));
}

} // verus!
