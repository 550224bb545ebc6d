//! Paths as text: their parts, when two of them are the same, what lies below
//! one and what one lies in.

use vstd::prelude::*;
use vstd::string::*;

use crate::run::Platform;
use crate::text::{join, texts_of};

verus! {

/// A path that is handed to Windows as it stands: nothing in it is abbreviated.
pub open spec fn is_verbatim(platform: Platform, path: Seq<char>) -> bool {
    &&& platform == Platform::Windows
    &&& path.len() >= 4
    &&& path[0] == '\\'
    &&& path[1] == '\\'
    &&& path[2] == '?'
    &&& path[3] == '\\'
}

/// A character between the parts of a path.
pub open spec fn separates(platform: Platform, verbatim: bool, c: char) -> bool {
    match platform {
        Platform::MacOs => c == '/',
        Platform::Windows => c == '\\' || c == '/' && !verbatim,
    }
}

fn is_separator(platform: Platform, verbatim: bool, c: char) -> (separator: bool)
    ensures
        separator == separates(platform, verbatim, c),
{
    match platform {
        Platform::MacOs => c == '/',
        Platform::Windows => c == '\\' || c == '/' && !verbatim,
    }
}

/// Where the part that begins at a place ends.
pub open spec fn piece_end(platform: Platform, verbatim: bool, path: Seq<char>, from: int) -> int
    decreases path.len() - from,
{
    if from >= path.len() {
        path.len() as int
    } else if separates(platform, verbatim, path[from]) {
        from
    } else {
        piece_end(platform, verbatim, path, from + 1)
    }
}

proof fn lemma_piece_end(platform: Platform, verbatim: bool, path: Seq<char>, from: int)
    requires
        0 <= from <= path.len(),
    ensures
        from <= piece_end(platform, verbatim, path, from) <= path.len(),
    decreases path.len() - from,
{
    if from < path.len() && !separates(platform, verbatim, path[from]) {
        lemma_piece_end(platform, verbatim, path, from + 1);
    }
}

fn find_piece_end(platform: Platform, verbatim: bool, path: &str, from: usize) -> (end: usize)
    requires
        from <= path@.len(),
    ensures
        end == piece_end(platform, verbatim, path@, from as int),
        from <= end <= path@.len(),
{
    let length: usize = path.unicode_len();
    let mut end: usize = from;
    while end < length && !is_separator(platform, verbatim, path.get_char(end))
        invariant
            from <= end <= length,
            length == path@.len(),
            piece_end(platform, verbatim, path@, from as int) == piece_end(
                platform,
                verbatim,
                path@,
                end as int,
            ),
        decreases length - end,
    {
        end += 1;
    }
    end
}

/// A letter of a drive and a colon stand at a place.
pub open spec fn drive_at(path: Seq<char>, from: int) -> bool {
    &&& from + 2 <= path.len()
    &&& path[from + 1] == ':'
    &&& 'a' <= path[from] <= 'z' || 'A' <= path[from] <= 'Z'
}

/// Where the drive, the share or the device of a path ends, which is before its
/// first separator; nothing where it has none.
pub open spec fn prefix_end(platform: Platform, path: Seq<char>) -> int {
    if platform == Platform::MacOs {
        0
    } else if is_verbatim(platform, path) {
        let first = piece_end(platform, true, path, 4);
        if path.subrange(4, first) == "UNC"@ && first < path.len() {
            let server = piece_end(platform, true, path, first + 1);
            if server < path.len() {
                piece_end(platform, true, path, server + 1)
            } else {
                server
            }
        } else {
            first
        }
    } else if drive_at(path, 0) {
        2
    } else if path.len() >= 2 && separates(platform, false, path[0]) && separates(
        platform,
        false,
        path[1],
    ) {
        let server = piece_end(platform, false, path, 2);
        if 2 < server < path.len() && piece_end(platform, false, path, server + 1) > server + 1 {
            piece_end(platform, false, path, server + 1)
        } else {
            0
        }
    } else {
        0
    }
}

fn check_verbatim(platform: Platform, path: &str) -> (verbatim: bool)
    ensures
        verbatim == is_verbatim(platform, path@),
{
    let windows = match platform {
        Platform::Windows => true,
        Platform::MacOs => false,
    };
    windows && path.unicode_len() >= 4 && path.get_char(0) == '\\' && path.get_char(1) == '\\'
        && path.get_char(2) == '?' && path.get_char(3) == '\\'
}

fn is_drive(path: &str) -> (drive: bool)
    ensures
        drive == drive_at(path@, 0),
{
    if path.unicode_len() < 2 || path.get_char(1) != ':' {
        return false;
    }
    let letter: char = path.get_char(0);
    ('a' <= letter && letter <= 'z') || ('A' <= letter && letter <= 'Z')
}

fn find_prefix_end(platform: Platform, path: &str) -> (end: usize)
    ensures
        end == prefix_end(platform, path@),
        end <= path@.len(),
{
    match platform {
        Platform::MacOs => return 0,
        Platform::Windows => {},
    }
    let length: usize = path.unicode_len();
    if check_verbatim(platform, path) {
        let first: usize = find_piece_end(platform, true, path, 4);
        let name = path.substring_char(4, first);
        if crate::text::same_text(name, "UNC") && first < length {
            let server: usize = find_piece_end(platform, true, path, first + 1);
            if server < length {
                return find_piece_end(platform, true, path, server + 1);
            }
            return server;
        }
        return first;
    }
    if is_drive(path) {
        return 2;
    }
    if length >= 2 && is_separator(platform, false, path.get_char(0)) && is_separator(
        platform,
        false,
        path.get_char(1),
    ) {
        let server: usize = find_piece_end(platform, false, path, 2);
        if 2 < server && server < length {
            let share: usize = find_piece_end(platform, false, path, server + 1);
            if share > server + 1 {
                return share;
            }
        }
    }
    0
}

/// A place and the place after it.
pub open spec fn piece(path: Seq<char>, span: (int, int)) -> Seq<char> {
    path.subrange(span.0, span.1)
}

/// The spans of the names of a path from a place on. Nothing stands between two
/// separators that follow each other, and a single dot stands for nothing but
/// where a path begins with it or is taken as it stands.
pub open spec fn spans(
    platform: Platform,
    verbatim: bool,
    path: Seq<char>,
    from: int,
    leading: bool,
) -> Seq<(int, int)>
    decreases path.len() - from,
{
    if from >= path.len() || from < 0 {
        Seq::empty()
    } else {
        let end = piece_end(platform, verbatim, path, from);
        if end < from {
            Seq::empty()
        } else {
            let rest = if end < path.len() {
                spans(platform, verbatim, path, end + 1, false)
            } else {
                Seq::empty()
            };
            if end == from || path.subrange(from, end) == "."@ && !leading && !verbatim {
                rest
            } else {
                seq![(from, end)] + rest
            }
        }
    }
}

/// A path in its parts: the drive, share or device with the letter of a drive in
/// upper case, whether it begins at the top, and its names.
pub struct PathView {
    pub prefix: Seq<Seq<char>>,
    pub rooted: bool,
    pub names: Seq<Seq<char>>,
}

/// A letter in upper case.
pub open spec fn upper(c: char) -> char {
    if 'a' <= c <= 'z' {
        (c as u32 - 32) as char
    } else {
        c
    }
}

/// The parts of a drive, share or device, as they stand.
pub open spec fn written_prefix(platform: Platform, path: Seq<char>) -> Seq<Seq<char>> {
    let end = prefix_end(platform, path);
    let head = path.subrange(0, end);
    let from = if drive_at(path, 0) {
        0int
    } else {
        2int
    };
    let found = spans(platform, is_verbatim(platform, path), head, from, true);
    if end == 0 {
        Seq::empty()
    } else {
        Seq::new(found.len(), |i: int| piece(head, found[i]))
    }
}

/// Whether the last part of a prefix may be the letter of a drive, and not the
/// name of a share.
pub open spec fn may_hold_drive(platform: Platform, path: Seq<char>) -> bool {
    drive_at(path, 0) || is_verbatim(platform, path)
}

/// A drive by its letter in upper case, and anything else as it stands.
pub open spec fn normal(name: Seq<char>, may_be_drive: bool) -> Seq<char> {
    if may_be_drive && name.len() == 2 && drive_at(name, 0) {
        seq![upper(name[0]), ':']
    } else {
        name
    }
}

/// The parts of a drive, share or device.
pub open spec fn prefix_of(platform: Platform, path: Seq<char>) -> Seq<Seq<char>> {
    let names = written_prefix(platform, path);
    if names.len() == 0 {
        names
    } else {
        names.update(names.len() - 1, normal(names.last(), may_hold_drive(platform, path)))
    }
}

/// Whether what follows the prefix begins at the top. What has a share or a
/// device does so in any case.
pub open spec fn is_rooted(platform: Platform, path: Seq<char>) -> bool {
    let end = prefix_end(platform, path);
    ||| end > 0 && !drive_at(path, 0)
    ||| end < path.len() && separates(platform, is_verbatim(platform, path), path[end])
}

/// The spans of the names behind the prefix.
pub open spec fn name_spans(platform: Platform, path: Seq<char>) -> Seq<(int, int)> {
    let end = prefix_end(platform, path);
    spans(platform, is_verbatim(platform, path), path, end, !is_rooted(platform, path))
}

/// The parts of a path.
pub open spec fn parts(platform: Platform, path: Seq<char>) -> PathView {
    PathView {
        prefix: prefix_of(platform, path),
        rooted: is_rooted(platform, path),
        names: Seq::new(
            name_spans(platform, path).len(),
            |i: int| piece(path, name_spans(platform, path)[i]),
        ),
    }
}

/// Two paths are the same: they have the same parts.
pub open spec fn is_same_path(platform: Platform, first: Seq<char>, second: Seq<char>) -> bool {
    parts(platform, first) == parts(platform, second)
}

fn find_spans(platform: Platform, verbatim: bool, path: &str, from: usize, leading: bool) -> (found:
    Vec<(usize, usize)>)
    requires
        from <= path@.len(),
    ensures
        span_views(found@) == spans(platform, verbatim, path@, from as int, leading),
        forall|i: int|
            0 <= i < found@.len() ==> from <= (#[trigger] found@[i]).0 < found@[i].1 <= path@.len(),
{
    let length: usize = path.unicode_len();
    let mut found: Vec<(usize, usize)> = Vec::new();
    let mut at: usize = from;
    let mut first = leading;
    let ghost all = spans(platform, verbatim, path@, from as int, leading);
    assert(span_views(found@) + all =~= all);
    while at < length
        invariant
            from <= at,
            length == path@.len(),
            all == spans(platform, verbatim, path@, from as int, leading),
            all == span_views(found@) + spans(platform, verbatim, path@, at as int, first),
            forall|i: int|
                0 <= i < found@.len() ==> from <= (#[trigger] found@[i]).0 < found@[i].1
                    <= path@.len(),
        decreases length - at,
    {
        let end: usize = find_piece_end(platform, verbatim, path, at);
        let ghost rest = if end < length {
            spans(platform, verbatim, path@, end + 1, false)
        } else {
            Seq::empty()
        };
        let ghost before = found@;
        let name = path.substring_char(at, end);
        if end > at && (first || verbatim || !crate::text::same_text(name, ".")) {
            found.push((at, end));
            proof {
                assert(span_views(found@) =~= span_views(before) + seq![(at as int, end as int)]);
                assert(span_views(before) + (seq![(at as int, end as int)] + rest) =~= span_views(
                    found@,
                ) + rest);
            }
        }
        first = false;
        if end == length {
            proof {
                assert(span_views(found@) + rest =~= span_views(found@));
            }
            return found;
        }
        at = end + 1;
    }
    assert(span_views(found@) + Seq::empty() =~= span_views(found@));
    found
}

/// Spans as numbers.
pub open spec fn span_views(found: Seq<(usize, usize)>) -> Seq<(int, int)> {
    Seq::new(found.len(), |i: int| (found[i].0 as int, found[i].1 as int))
}

fn pieces(path: &str, found: &Vec<(usize, usize)>) -> (names: Vec<String>)
    requires
        forall|i: int|
            0 <= i < found@.len() ==> (#[trigger] found@[i]).0 <= found@[i].1 <= path@.len(),
    ensures
        texts_of(names@) == Seq::new(
            span_views(found@).len(),
            |i: int| piece(path@, span_views(found@)[i]),
        ),
{
    let mut names: Vec<String> = Vec::new();
    let mut i: usize = 0;
    while i < found.len()
        invariant
            i <= found@.len(),
            names@.len() == i,
            forall|k: int|
                0 <= k < found@.len() ==> (#[trigger] found@[k]).0 <= found@[k].1 <= path@.len(),
            forall|k: int|
                0 <= k < i ==> (#[trigger] names@[k])@ == piece(path@, span_views(found@)[k]),
        decreases found@.len() - i,
    {
        let (from, end) = found[i];
        names.push(path.substring_char(from, end).to_owned());
        i += 1;
    }
    assert(texts_of(names@) =~= Seq::new(
        span_views(found@).len(),
        |i: int| piece(path@, span_views(found@)[i]),
    ));
    names
}

fn large(c: char) -> (large: char)
    ensures
        large == upper(c),
{
    if 'a' <= c && c <= 'z' {
        (c as u8 - 32) as char
    } else {
        c
    }
}

/// Whether two parts are the same, where each may be the letter of a drive.
fn same_normal(first: &str, first_drive: bool, second: &str, second_drive: bool) -> (same: bool)
    ensures
        same == (normal(first@, first_drive) == normal(second@, second_drive)),
{
    let length: usize = first.unicode_len();
    let first_is = first_drive && length == 2 && is_drive(first);
    let second_is = second_drive && second.unicode_len() == 2 && is_drive(second);
    let ghost a = normal(first@, first_drive);
    let ghost b = normal(second@, second_drive);
    if length != second.unicode_len() {
        assert(a.len() != b.len());
        return false;
    }
    let mut i: usize = 0;
    while i < length
        invariant
            i <= length,
            length == first@.len(),
            length == second@.len(),
            a == normal(first@, first_drive),
            b == normal(second@, second_drive),
            first_is == (first_drive && length == 2 && drive_at(first@, 0)),
            second_is == (second_drive && length == 2 && drive_at(second@, 0)),
            forall|k: int| 0 <= k < i ==> #[trigger] a[k] == b[k],
        decreases length - i,
    {
        let left: char = if first_is && i == 0 {
            large(first.get_char(i))
        } else {
            first.get_char(i)
        };
        let right: char = if second_is && i == 0 {
            large(second.get_char(i))
        } else {
            second.get_char(i)
        };
        assert(left == a[i as int]);
        assert(right == b[i as int]);
        if left != right {
            return false;
        }
        i += 1;
    }
    assert(a =~= b);
    true
}

fn find_prefix(platform: Platform, path: &str) -> (prefix: Vec<String>)
    ensures
        texts_of(prefix@) == written_prefix(platform, path@),
{
    let end: usize = find_prefix_end(platform, path);
    if end == 0 {
        let prefix: Vec<String> = Vec::new();
        assert(texts_of(prefix@) =~= Seq::empty());
        return prefix;
    }
    let head = path.substring_char(0, end);
    proof {
        lemma_prefix_is_long(platform, path@);
    }
    let from: usize = if is_drive(path) {
        0
    } else {
        2
    };
    let found = find_spans(platform, check_verbatim(platform, path), head, from, true);
    pieces(head, &found)
}

/// Whether two paths have the same drive, share or device.
fn same_prefix(platform: Platform, first: &str, second: &str) -> (same: bool)
    ensures
        same == (prefix_of(platform, first@) == prefix_of(platform, second@)),
{
    let left = find_prefix(platform, first);
    let right = find_prefix(platform, second);
    let ghost a = prefix_of(platform, first@);
    let ghost b = prefix_of(platform, second@);
    let count: usize = left.len();
    assert(a.len() == left@.len() && b.len() == right@.len());
    if count != right.len() {
        return false;
    }
    let first_drive = is_drive(first) || check_verbatim(platform, first);
    let second_drive = is_drive(second) || check_verbatim(platform, second);
    let mut i: usize = 0;
    while i < count
        invariant
            i <= count,
            count == left@.len(),
            count == right@.len(),
            texts_of(left@) == written_prefix(platform, first@),
            texts_of(right@) == written_prefix(platform, second@),
            a == prefix_of(platform, first@),
            b == prefix_of(platform, second@),
            first_drive == may_hold_drive(platform, first@),
            second_drive == may_hold_drive(platform, second@),
            forall|k: int| 0 <= k < i ==> #[trigger] a[k] == b[k],
        decreases count - i,
    {
        let last = i + 1 == count;
        assert(texts_of(left@)[i as int] == left@[i as int]@);
        assert(texts_of(right@)[i as int] == right@[i as int]@);
        assert(a[i as int] == normal(left@[i as int]@, last && first_drive));
        assert(b[i as int] == normal(right@[i as int]@, last && second_drive));
        if !same_normal(
            left[i].as_str(),
            last && first_drive,
            right[i].as_str(),
            last && second_drive,
        ) {
            return false;
        }
        i += 1;
    }
    assert(a =~= b);
    true
}

proof fn lemma_prefix_is_long(platform: Platform, path: Seq<char>)
    requires
        prefix_end(platform, path) != 0,
    ensures
        2 <= prefix_end(platform, path) <= path.len(),
{
    if is_verbatim(platform, path) {
        lemma_piece_end(platform, true, path, 4);
        let first = piece_end(platform, true, path, 4);
        if first < path.len() {
            lemma_piece_end(platform, true, path, first + 1);
            let server = piece_end(platform, true, path, first + 1);
            if server < path.len() {
                lemma_piece_end(platform, true, path, server + 1);
            }
        }
    } else if !drive_at(path, 0) {
        lemma_piece_end(platform, false, path, 2);
        let server = piece_end(platform, false, path, 2);
        lemma_piece_end(platform, false, path, server + 1);
    }
}

fn check_rooted(platform: Platform, path: &str) -> (rooted: bool)
    ensures
        rooted == is_rooted(platform, path@),
{
    let end: usize = find_prefix_end(platform, path);
    if end > 0 && !is_drive(path) {
        return true;
    }
    end < path.unicode_len() && is_separator(
        platform,
        check_verbatim(platform, path),
        path.get_char(end),
    )
}

/// A path is given from the top: on Windows this takes a drive, a share or a
/// device too.
pub open spec fn is_absolute(platform: Platform, path: Seq<char>) -> bool {
    is_rooted(platform, path) && (platform == Platform::MacOs || prefix_end(platform, path) > 0)
}

/// Whether a path is given from the top.
pub fn is_absolute_path(platform: Platform, path: &str) -> (absolute: bool)
    ensures
        absolute == is_absolute(platform, path@),
{
    let anchored = match platform {
        Platform::MacOs => true,
        Platform::Windows => find_prefix_end(platform, path) > 0,
    };
    anchored && check_rooted(platform, path)
}

fn find_name_spans(platform: Platform, path: &str) -> (found: Vec<(usize, usize)>)
    ensures
        span_views(found@) == name_spans(platform, path@),
        forall|i: int|
            0 <= i < found@.len() ==> (#[trigger] found@[i]).0 < found@[i].1 <= path@.len(),
{
    let end: usize = find_prefix_end(platform, path);
    let rooted = check_rooted(platform, path);
    find_spans(platform, check_verbatim(platform, path), path, end, !rooted)
}

fn same_texts(first: &Vec<String>, second: &Vec<String>) -> (same: bool)
    ensures
        same == (texts_of(first@) == texts_of(second@)),
{
    if first.len() != second.len() {
        assert(texts_of(first@).len() != texts_of(second@).len());
        return false;
    }
    let mut i: usize = 0;
    while i < first.len()
        invariant
            i <= first@.len(),
            first@.len() == second@.len(),
            forall|k: int| 0 <= k < i ==> (#[trigger] first@[k])@ == second@[k]@,
        decreases first@.len() - i,
    {
        if !crate::text::same_text(first[i].as_str(), second[i].as_str()) {
            assert(texts_of(first@)[i as int] != texts_of(second@)[i as int]);
            return false;
        }
        i += 1;
    }
    assert(texts_of(first@) =~= texts_of(second@));
    true
}

/// Whether two paths have the same parts.
pub fn same_path(platform: Platform, first: &str, second: &str) -> (same: bool)
    ensures
        same == is_same_path(platform, first@, second@),
{
    let rooted = check_rooted(platform, first) == check_rooted(platform, second);
    let prefix = same_prefix(platform, first, second);
    let first_names = pieces(first, &find_name_spans(platform, first));
    let second_names = pieces(second, &find_name_spans(platform, second));
    rooted && prefix && same_texts(&first_names, &second_names)
}

/// Where the path ends in which the last name of a path lies: behind the name
/// before it, or behind the root.
pub open spec fn parent_end(platform: Platform, path: Seq<char>) -> int {
    let names = name_spans(platform, path);
    if names.len() >= 2 {
        names[names.len() - 2].1
    } else {
        let end = prefix_end(platform, path);
        if end < path.len() && separates(platform, is_verbatim(platform, path), path[end]) {
            end + 1
        } else {
            end
        }
    }
}

/// The path that a path lies in; none for one without a name.
pub open spec fn parent_of(platform: Platform, path: Seq<char>) -> Option<Seq<char>> {
    if name_spans(platform, path).len() == 0 {
        None
    } else {
        Some(path.subrange(0, parent_end(platform, path)))
    }
}

/// The path that a path lies in.
pub fn parent_path(platform: Platform, path: &str) -> (parent: Option<String>)
    ensures
        match parent {
            Some(parent) => parent_of(platform, path@) == Some(parent@),
            None => parent_of(platform, path@) is None,
        },
{
    let names = find_name_spans(platform, path);
    let count: usize = names.len();
    if count == 0 {
        return None;
    }
    let end: usize = if count >= 2 {
        assert(span_views(names@)[count - 2].1 == names@[count - 2].1);
        names[count - 2].1
    } else {
        let end: usize = find_prefix_end(platform, path);
        if end < path.unicode_len() && is_separator(
            platform,
            check_verbatim(platform, path),
            path.get_char(end),
        ) {
            end + 1
        } else {
            end
        }
    };
    Some(path.substring_char(0, end).to_owned())
}

/// The character between the parts of a path.
pub open spec fn separator(platform: Platform) -> Seq<char> {
    match platform {
        Platform::MacOs => "/"@,
        Platform::Windows => "\\"@,
    }
}

/// Whether a name is put behind a path without a separator: the path is empty,
/// ends in one, or is a drive and nothing else.
pub open spec fn takes_name_directly(platform: Platform, path: Seq<char>) -> bool {
    ||| path.len() == 0
    ||| separates(platform, is_verbatim(platform, path), path.last())
    ||| platform == Platform::Windows && path.len() == 2 && drive_at(path, 0)
}

/// What a path and a name behind it make: the name alone where it begins at the
/// top, and otherwise the name below the path.
pub open spec fn below(platform: Platform, path: Seq<char>, name: Seq<char>) -> Seq<char> {
    if prefix_end(platform, name) > 0 {
        name
    } else if is_rooted(platform, name) {
        path.subrange(0, prefix_end(platform, path)) + name
    } else if takes_name_directly(platform, path) {
        path + name
    } else {
        path + separator(platform) + name
    }
}

/// A name below a path.
pub fn join_path(platform: Platform, path: &str, name: &str) -> (joined: String)
    ensures
        joined@ == below(platform, path@, name@),
{
    if find_prefix_end(platform, name) > 0 {
        return name.to_owned();
    }
    if check_rooted(platform, name) {
        let end: usize = find_prefix_end(platform, path);
        return join(path.substring_char(0, end), name);
    }
    let length: usize = path.unicode_len();
    let verbatim = check_verbatim(platform, path);
    if length == 0 || is_separator(platform, verbatim, path.get_char(length - 1)) {
        return join(path, name);
    }
    let windows = match platform {
        Platform::Windows => true,
        Platform::MacOs => false,
    };
    if windows && length == 2 && is_drive(path) {
        return join(path, name);
    }
    let between = match platform {
        Platform::MacOs => "/",
        Platform::Windows => "\\",
    };
    join(join(path, between).as_str(), name)
}

/// Whether the directory that is stored for a run is the run's own: the one of
/// its ID below the root of the logs.
pub fn is_run_directory(platform: Platform, log_root: &str, run_id: &str, directory: &str) -> (own:
    bool)
    ensures
        own == is_same_path(platform, directory@, below(platform, log_root@, run_id@)),
{
    let expected = join_path(platform, log_root, run_id);
    same_path(platform, directory, expected.as_str())
}

/// The last name of a path.
pub open spec fn last_name_of(platform: Platform, path: Seq<char>) -> Option<Seq<char>> {
    let names = parts(platform, path).names;
    if names.len() == 0 {
        None
    } else {
        Some(names.last())
    }
}

/// Whether a path is one with a name directly in a directory.
pub fn is_entry_of(platform: Platform, path: &str, directory: &str, name: &str) -> (entry: bool)
    ensures
        entry == (parent_of(platform, path@) is Some && is_same_path(
            platform,
            parent_of(platform, path@)->0,
            directory@,
        ) && last_name_of(platform, path@) == Some(name@)),
{
    let names = pieces(path, &find_name_spans(platform, path));
    let count: usize = names.len();
    assert(parts(platform, path@).names == texts_of(names@));
    match parent_path(platform, path) {
        Some(parent) => {
            assert(count > 0);
            assert(texts_of(names@).last() == names@[count - 1]@);
            same_path(platform, parent.as_str(), directory) && crate::text::same_text(
                names[count - 1].as_str(),
                name,
            )
        },
        None => false,
    }
}

/// A plain name: it has no separator, and stands for itself.
pub open spec fn is_plain(platform: Platform, name: Seq<char>) -> bool {
    &&& name.len() > 0
    &&& name != "."@
    &&& prefix_end(platform, name) == 0
    &&& forall|i: int|
        0 <= i < name.len() ==> !separates(platform, false, #[trigger] name[i])
}

proof fn lemma_no_separator(platform: Platform, verbatim: bool, path: Seq<char>, from: int)
    requires
        0 <= from <= path.len(),
        forall|i: int|
            from <= i < path.len() ==> !separates(platform, verbatim, #[trigger] path[i]),
    ensures
        piece_end(platform, verbatim, path, from) == path.len(),
    decreases path.len() - from,
{
    if from < path.len() {
        lemma_no_separator(platform, verbatim, path, from + 1);
    }
}

/// A part that ends within the first of two texts ends there in both together.
proof fn lemma_piece_of_longer(
    platform: Platform,
    verbatim: bool,
    path: Seq<char>,
    tail: Seq<char>,
    from: int,
)
    requires
        0 <= from <= path.len(),
    ensures
        piece_end(platform, verbatim, path, from) < path.len() ==> piece_end(
            platform,
            verbatim,
            path + tail,
            from,
        ) == piece_end(platform, verbatim, path, from),
        piece_end(platform, verbatim, path, from) == path.len() && tail.len() > 0 && separates(
            platform,
            verbatim,
            tail[0],
        ) ==> piece_end(platform, verbatim, path + tail, from) == path.len(),
        from < path.len() && separates(platform, verbatim, path.last()) ==> piece_end(
            platform,
            verbatim,
            path,
            from,
        ) < path.len(),
    decreases path.len() - from,
{
    if from < path.len() {
        assert((path + tail)[from] == path[from]);
        if !separates(platform, verbatim, path[from]) {
            lemma_piece_of_longer(platform, verbatim, path, tail, from + 1);
        }
    } else if tail.len() > 0 {
        assert((path + tail)[from] == tail[0]);
    }
}

/// The names of a path with a name behind it.
proof fn lemma_spans_with_name(
    platform: Platform,
    verbatim: bool,
    path: Seq<char>,
    between: Seq<char>,
    name: Seq<char>,
    from: int,
    leading: bool,
)
    requires
        0 <= from <= path.len(),
        is_plain(platform, name),
        between.len() == 1 && separates(platform, verbatim, between[0]) || between.len() == 0 && (
        from == path.len() || separates(platform, verbatim, path.last())),
    ensures
        spans(platform, verbatim, path + between + name, from, leading) == spans(
            platform,
            verbatim,
            path,
            from,
            leading,
        ).push(((path.len() + between.len()) as int, (path + between + name).len() as int)),
    decreases path.len() - from,
{
    let whole = path + between + name;
    let tail = between + name;
    assert(whole =~= path + tail);
    let start = (path.len() + between.len()) as int;
    lemma_piece_of_longer(platform, verbatim, path, tail, from);
    lemma_piece_end(platform, verbatim, path, from);
    assert forall|i: int| start <= i < whole.len() implies !separates(
        platform,
        verbatim,
        #[trigger] whole[i],
    ) by {
        assert(whole[i] == name[i - start]);
    }
    lemma_no_separator(platform, verbatim, whole, start);
    assert(whole.subrange(start, whole.len() as int) =~= name);
    let last = seq![(start, whole.len() as int)];
    assert(spans(platform, verbatim, whole, start, false) =~= last) by {
        assert(last + Seq::empty() =~= last);
    }
    assert(spans(platform, verbatim, whole, start, leading) =~= last) by {
        assert(last + Seq::empty() =~= last);
    }
    let end = piece_end(platform, verbatim, path, from);
    if from == path.len() {
        assert(spans(platform, verbatim, path, from, leading) =~= Seq::empty());
        assert(Seq::empty().push((start, whole.len() as int)) =~= last);
        if between.len() == 1 {
            assert(whole[from] == between[0]);
            assert(piece_end(platform, verbatim, whole, from) == from);
        }
    } else if end < path.len() {
        lemma_spans_with_name(platform, verbatim, path, between, name, end + 1, false);
        assert(whole.subrange(from, end) =~= path.subrange(from, end));
        let rest = spans(platform, verbatim, path, end + 1, false);
        assert(seq![(from, end)] + rest.push((start, whole.len() as int)) =~= (seq![(from, end)]
            + rest).push((start, whole.len() as int)));
    } else {
        assert(tail[0] == between[0]);
        assert(whole.subrange(from, end) =~= path.subrange(from, end));
        assert((seq![(from, end)] + Seq::<(int, int)>::empty()).push((start, whole.len() as int))
            =~= seq![(from, end)] + last);
        assert(Seq::<(int, int)>::empty().push((start, whole.len() as int)) =~= last);
    }
}

/// A name below a path is one name more: the path lies where the path above it
/// does. On Windows this needs that the name does not become part of a share or
/// a device.
pub proof fn lemma_below_adds_a_name(platform: Platform, path: Seq<char>, name: Seq<char>)
    requires
        is_plain(platform, name),
        prefix_end(platform, below(platform, path, name)) == prefix_end(platform, path),
    ensures
        parts(platform, below(platform, path, name)) == (PathView {
            names: parts(platform, path).names.push(name),
            ..parts(platform, path)
        }),
{
    let whole = below(platform, path, name);
    let end = prefix_end(platform, path);
    let verbatim = is_verbatim(platform, path);
    assert(!separates(platform, false, name[0]));
    assert(!is_rooted(platform, name));
    let between = if takes_name_directly(platform, path) {
        Seq::empty()
    } else {
        separator(platform)
    };
    reveal_strlit("/");
    reveal_strlit("\\");
    assert(whole =~= path + between + name);
    if end != 0 {
        lemma_prefix_is_long(platform, path);
    }
    if is_verbatim(platform, whole) {
        lemma_verbatim_prefix(platform, whole);
        assert(path.len() >= 4);
    }
    assert(forall|i: int| 0 <= i < path.len() ==> #[trigger] whole[i] == path[i]);
    assert(is_verbatim(platform, whole) == verbatim);
    assert(drive_at(path, 0) ==> drive_at(whole, 0));
    assert(platform == Platform::Windows && drive_at(whole, 0) ==> drive_at(path, 0)) by {
        if platform == Platform::Windows && drive_at(whole, 0) && !is_verbatim(platform, whole) {
            assert(prefix_end(platform, whole) == 2);
        }
    }
    assert(is_rooted(platform, whole) == is_rooted(platform, path)) by {
        if end < path.len() {
            assert(whole[end] == path[end]);
        } else if between.len() == 0 && whole.len() > end {
            assert(whole[end] == name[0]);
        }
    }
    assert(whole.subrange(0, end) =~= path.subrange(0, end));
    assert(prefix_of(platform, whole) == prefix_of(platform, path));
    lemma_spans_with_name(
        platform,
        verbatim,
        path,
        between,
        name,
        end,
        !is_rooted(platform, path),
    );
    let found = name_spans(platform, path);
    lemma_spans_lie_in(platform, verbatim, path, end, !is_rooted(platform, path));
    assert forall|i: int| 0 <= i < found.len() implies piece(whole, found[i]) == #[trigger] piece(
        path,
        found[i],
    ) by {
        assert(piece(whole, found[i]) =~= piece(path, found[i]));
    }
    let start = (path.len() + between.len()) as int;
    assert(piece(whole, (start, whole.len() as int)) =~= name);
    assert(parts(platform, whole).names =~= parts(platform, path).names.push(name));
}

proof fn lemma_verbatim_prefix(platform: Platform, path: Seq<char>)
    requires
        is_verbatim(platform, path),
    ensures
        prefix_end(platform, path) >= 4,
{
    lemma_piece_end(platform, true, path, 4);
    let first = piece_end(platform, true, path, 4);
    if first < path.len() {
        lemma_piece_end(platform, true, path, first + 1);
        let server = piece_end(platform, true, path, first + 1);
        if server < path.len() {
            lemma_piece_end(platform, true, path, server + 1);
        }
    }
}

proof fn lemma_spans_lie_in(
    platform: Platform,
    verbatim: bool,
    path: Seq<char>,
    from: int,
    leading: bool,
)
    requires
        0 <= from <= path.len(),
    ensures
        forall|i: int|
            0 <= i < spans(platform, verbatim, path, from, leading).len() ==> 0 <= (
            #[trigger] spans(platform, verbatim, path, from, leading)[i]).0 <= spans(
                platform,
                verbatim,
                path,
                from,
                leading,
            )[i].1 <= path.len(),
    decreases path.len() - from,
{
    if from < path.len() {
        lemma_piece_end(platform, verbatim, path, from);
        let end = piece_end(platform, verbatim, path, from);
        let rest = if end < path.len() {
            spans(platform, verbatim, path, end + 1, false)
        } else {
            Seq::empty()
        };
        if end < path.len() {
            lemma_spans_lie_in(platform, verbatim, path, end + 1, false);
        }
        let found = spans(platform, verbatim, path, from, leading);
        assert forall|i: int| 0 <= i < found.len() implies 0 <= (#[trigger] found[i]).0
            <= found[i].1 <= path.len() by {
            if found == rest {
                assert(found[i] == rest[i]);
            } else if i > 0 {
                assert(found[i] == rest[i - 1]);
            }
        }
    }
}

/// A part ends at a separator, or before it.
proof fn lemma_piece_stops(platform: Platform, verbatim: bool, path: Seq<char>, from: int, at: int)
    requires
        0 <= from <= at < path.len(),
        separates(platform, verbatim, path[at]),
    ensures
        from <= piece_end(platform, verbatim, path, from) <= at,
    decreases at - from,
{
    if from < at && !separates(platform, verbatim, path[from]) {
        lemma_piece_stops(platform, verbatim, path, from + 1, at);
    }
}

/// Two names below any path settle its drive, share or device: the prefix ends
/// before the second of them, and nothing that follows changes it.
pub(crate) proof fn lemma_two_names_settle_the_prefix(
    platform: Platform,
    path: Seq<char>,
    first: Seq<char>,
    second: Seq<char>,
    tail: Seq<char>,
)
    requires
        is_plain(platform, first),
        is_plain(platform, second),
        first.len() >= 4,
        first.last() != 'C',
    ensures
        ({
            let upper_path = below(platform, path, first);
            let lower_path = below(platform, upper_path, second);
            let separated = lower_path + separator(platform);
            &&& lower_path == upper_path + separator(platform) + second
            &&& prefix_end(platform, separated + tail) == prefix_end(platform, separated)
            &&& 0 <= prefix_end(platform, separated) <= lower_path.len()
            &&& lower_path.len() >= 4
            &&& !separates(platform, is_verbatim(platform, lower_path), lower_path.last())
        }),
{
    reveal_strlit("/");
    reveal_strlit("\\");
    reveal_strlit("UNC");
    assert(!separates(platform, false, first[0]));
    assert(!separates(platform, false, second[0]));
    assert(!is_rooted(platform, first));
    assert(!is_rooted(platform, second));
    let a = below(platform, path, first);
    let between = if takes_name_directly(platform, path) {
        Seq::empty()
    } else {
        separator(platform)
    };
    assert(a =~= path + between + first);
    assert(a.last() == first.last());
    assert(!separates(platform, false, first[first.len() - 1]));
    assert(!takes_name_directly(platform, a));
    let b = below(platform, a, second);
    assert(b == a + separator(platform) + second);
    assert(b.last() == second.last());
    assert(!separates(platform, false, second[second.len() - 1]));
    let r = b + separator(platform);
    let whole = r + tail;
    assert(forall|i: int| 0 <= i < r.len() ==> #[trigger] whole[i] == r[i]);
    let one = a.len() as int;
    let two = b.len() as int;
    assert(r[one] == separator(platform)[0]);
    assert(r[two] == separator(platform)[0]);
    assert(r[one - 1] == first.last());
    assert(is_verbatim(platform, whole) == is_verbatim(platform, r));
    if platform == Platform::Windows {
        if is_verbatim(platform, r) {
            lemma_piece_stops(platform, true, r, 4, one);
            lemma_piece_of_longer(platform, true, r, tail, 4);
            let end = piece_end(platform, true, r, 4);
            assert(whole.subrange(4, end) =~= r.subrange(4, end));
            if r.subrange(4, end) == "UNC"@ {
                assert(r.subrange(4, end)[end - 5] == r[end - 1]);
                assert(end < one);
                lemma_piece_stops(platform, true, r, end + 1, one);
                lemma_piece_of_longer(platform, true, r, tail, end + 1);
                let server = piece_end(platform, true, r, end + 1);
                lemma_piece_stops(platform, true, r, server + 1, two);
                lemma_piece_of_longer(platform, true, r, tail, server + 1);
            }
        } else if !drive_at(r, 0) {
            assert(!drive_at(whole, 0));
            lemma_piece_stops(platform, false, r, 2, one);
            lemma_piece_of_longer(platform, false, r, tail, 2);
            let server = piece_end(platform, false, r, 2);
            lemma_piece_stops(platform, false, r, server + 1, two);
            lemma_piece_of_longer(platform, false, r, tail, server + 1);
        } else {
            assert(drive_at(whole, 0));
        }
    }
}

/// What lies below a path whose last name was put below another one lies in that
/// path, where the prefix was settled before.
pub(crate) proof fn lemma_parent_of_below(
    platform: Platform,
    path: Seq<char>,
    name: Seq<char>,
    inner: Seq<char>,
)
    requires
        is_plain(platform, name),
        is_plain(platform, inner),
        path.len() > 0,
        !takes_name_directly(platform, path),
        path.len() >= 4,
        ({
            let directory = below(platform, path, name);
            &&& prefix_end(platform, below(platform, directory, inner)) == prefix_end(
                platform,
                directory,
            )
            &&& 0 <= prefix_end(platform, directory) <= path.len()
        }),
    ensures
        parent_of(platform, below(platform, below(platform, path, name), inner)) == Some(
            below(platform, path, name),
        ),
{
    reveal_strlit("/");
    reveal_strlit("\\");
    let directory = below(platform, path, name);
    let whole = below(platform, directory, inner);
    let end = prefix_end(platform, directory);
    assert(!separates(platform, false, name[0]));
    assert(!separates(platform, false, inner[0]));
    assert(!separates(platform, false, name[name.len() - 1]));
    assert(!is_rooted(platform, name));
    assert(!is_rooted(platform, inner));
    assert(directory == path + separator(platform) + name);
    assert(directory.last() == name.last());
    assert(!takes_name_directly(platform, directory));
    assert(whole == directory + separator(platform) + inner);
    assert(forall|i: int| 0 <= i < directory.len() ==> #[trigger] whole[i] == directory[i]);
    let verbatim = is_verbatim(platform, directory);
    assert(is_verbatim(platform, whole) == verbatim);
    assert(drive_at(whole, 0) == drive_at(directory, 0));
    assert(whole[end] == directory[end]);
    let leading = !is_rooted(platform, directory);
    assert(is_rooted(platform, whole) == is_rooted(platform, directory));
    lemma_spans_with_name(platform, verbatim, path, separator(platform), name, end, leading);
    lemma_spans_with_name(platform, verbatim, directory, separator(platform), inner, end, leading);
    let names = name_spans(platform, whole);
    assert(names.len() >= 2);
    assert(names[names.len() - 2].1 == directory.len());
    assert(whole.subrange(0, directory.len() as int) =~= directory);
}

/// Being the same path is an equivalence.
pub proof fn lemma_same_path_is_an_equivalence(
    platform: Platform,
    first: Seq<char>,
    second: Seq<char>,
    third: Seq<char>,
)
    ensures
        is_same_path(platform, first, first),
        is_same_path(platform, first, second) ==> is_same_path(platform, second, first),
        is_same_path(platform, first, second) && is_same_path(platform, second, third)
            ==> is_same_path(platform, first, third),
{
}

} // verus!
