//! The components of a path, as each platform writes them.

use vstd::prelude::*;

use crate::path;
use crate::path::FsPath;
use crate::path::PartView;
use crate::path::PathPart;
use crate::text;

verus! {

broadcast use vstd::utf8::group_utf8_lib;

/// The platforms that write paths in different ways.
#[derive(Debug, Clone, Copy, PartialEq, Eq, Structural)]
pub enum Platform {
    Unix,
    Windows,
}

/// What stands between the components of a path: a slash; on Windows a slash or a
/// backslash; and behind a prefix that is taken verbatim a backslash alone.
#[derive(Debug, Clone, Copy, PartialEq, Eq, Structural)]
pub enum Separators {
    Slash,
    Both,
    Backslash,
}

pub open spec fn separates(byte: u8, separators: Separators) -> bool {
    match separators {
        Separators::Slash => byte == 0x2f,
        Separators::Both => byte == 0x2f || byte == 0x5c,
        Separators::Backslash => byte == 0x5c,
    }
}

/// How many bytes stand before the first separator.
pub open spec fn piece_len(bytes: Seq<u8>, separators: Separators) -> nat
    decreases bytes.len(),
{
    if bytes.len() == 0 || separates(bytes[0], separators) {
        0
    } else {
        1 + piece_len(bytes.drop_first(), separators)
    }
}

/// The bytes before the first separator.
pub open spec fn first_piece(bytes: Seq<u8>, separators: Separators) -> Seq<u8> {
    bytes.take(piece_len(bytes, separators) as int)
}

/// The bytes behind the first separator.
pub open spec fn behind_piece(bytes: Seq<u8>, separators: Separators) -> Seq<u8> {
    let len = piece_len(bytes, separators) as int;
    if len < bytes.len() {
        bytes.skip(len + 1)
    } else {
        Seq::empty()
    }
}

pub open spec fn dot() -> Seq<u8> {
    seq![0x2eu8]
}

/// The component that a piece of a path stands for. An empty piece stands for
/// none, and neither does a dot but behind a verbatim prefix.
pub open spec fn part_of_piece(piece: Seq<u8>, separators: Separators) -> Option<PartView> {
    if piece.len() == 0 {
        None
    } else if piece == dot() {
        if separators == Separators::Backslash {
            Some(PartView::Current)
        } else {
            None
        }
    } else if piece == dot() + dot() {
        Some(PartView::Parent)
    } else {
        Some(PartView::Normal(piece))
    }
}

/// The components of what stands behind the root of a path.
pub open spec fn body_parts(bytes: Seq<u8>, separators: Separators) -> Seq<PartView>
    decreases bytes.len(),
    via body_parts_decreases
{
    if bytes.len() == 0 {
        Seq::empty()
    } else {
        let rest = body_parts(behind_piece(bytes, separators), separators);
        match part_of_piece(first_piece(bytes, separators), separators) {
            Some(part) => seq![part] + rest,
            None => rest,
        }
    }
}

#[via_fn]
proof fn body_parts_decreases(bytes: Seq<u8>, separators: Separators) {
    lemma_piece_len(bytes, separators);
}

proof fn lemma_piece_len(bytes: Seq<u8>, separators: Separators)
    ensures
        piece_len(bytes, separators) <= bytes.len(),
    decreases bytes.len(),
{
    if bytes.len() > 0 {
        lemma_piece_len(bytes.drop_first(), separators);
    }
}

/// What a path on Windows begins with: a drive, a share or a device. `anchor` is as
/// long as the prefix is in the path; the letter of a drive is in upper case.
pub struct PrefixView {
    pub anchor: Seq<u8>,
    /// Whether what follows is taken as it stands.
    pub verbatim: bool,
    /// Whether it is a drive alone, which may go without a root behind it.
    pub drive: bool,
}

/// Whether bytes begin with others, either separator standing for a backslash.
pub open spec fn begins_with(bytes: Seq<u8>, start: Seq<u8>) -> bool {
    bytes.len() >= start.len() && forall|i: int|
        0 <= i < start.len() ==> start[i] == (if (#[trigger] bytes[i]) == 0x2f {
            0x5cu8
        } else {
            bytes[i]
        })
}

/// The upper case letter of the drive that bytes begin with.
pub open spec fn drive_letter(bytes: Seq<u8>) -> Option<u8> {
    if bytes.len() < 2 || bytes[1] != 0x3a {
        None
    } else if 0x41 <= bytes[0] <= 0x5a {
        Some(bytes[0])
    } else if 0x61 <= bytes[0] <= 0x7a {
        Some((bytes[0] - 0x20) as u8)
    } else {
        None
    }
}

/// Two backslashes.
pub open spec fn share_start() -> Seq<u8> {
    seq![0x5cu8, 0x5cu8]
}

/// Two backslashes, a question mark and a backslash.
pub open spec fn verbatim_start() -> Seq<u8> {
    seq![0x5cu8, 0x5cu8, 0x3fu8, 0x5cu8]
}

/// The start of a verbatim share: that of a verbatim path, the letters UNC and a
/// backslash.
pub open spec fn verbatim_share_start() -> Seq<u8> {
    seq![0x5cu8, 0x5cu8, 0x3fu8, 0x5cu8, 0x55u8, 0x4eu8, 0x43u8, 0x5cu8]
}

/// Two backslashes, a dot and a backslash.
pub open spec fn device_start() -> Seq<u8> {
    seq![0x5cu8, 0x5cu8, 0x2eu8, 0x5cu8]
}

/// The prefix of a verbatim path.
pub open spec fn verbatim_prefix(bytes: Seq<u8>) -> PrefixView {
    let anchor = if begins_with(bytes, verbatim_share_start()) {
        let rest = bytes.skip(8);
        let server = first_piece(rest, Separators::Backslash);
        let share = first_piece(
            behind_piece(rest, Separators::Backslash),
            Separators::Backslash,
        );
        if share.len() == 0 {
            verbatim_share_start() + server
        } else {
            verbatim_share_start() + server + seq![0x5cu8] + share
        }
    } else {
        let rest = bytes.skip(4);
        match drive_letter(rest) {
            Some(letter) if rest.len() == 2 || separates(rest[2], Separators::Both) =>
                verbatim_start() + seq![letter, 0x3au8],
            _ => verbatim_start() + first_piece(rest, Separators::Backslash),
        }
    };
    PrefixView { anchor, verbatim: true, drive: false }
}

/// The prefix of a path on Windows. A verbatim path begins with backslashes and no
/// slashes. The anchor of a share has slashes, so that it differs from verbatim
/// ones.
pub open spec fn windows_prefix(bytes: Seq<u8>) -> Option<PrefixView> {
    if !begins_with(bytes, share_start()) {
        match drive_letter(bytes) {
            Some(letter) => Some(
                PrefixView { anchor: seq![letter, 0x3au8], verbatim: false, drive: true },
            ),
            None => None,
        }
    } else if bytes.len() >= 4 && bytes.take(4) == verbatim_start() {
        Some(verbatim_prefix(bytes))
    } else if begins_with(bytes, device_start()) {
        let device = first_piece(bytes.skip(4), Separators::Both);
        Some(PrefixView { anchor: device_start() + device, verbatim: false, drive: false })
    } else {
        let server = first_piece(bytes.skip(2), Separators::Both);
        let share = first_piece(behind_piece(bytes.skip(2), Separators::Both), Separators::Both);
        if server.len() == 0 || share.len() == 0 {
            None
        } else {
            let anchor = seq![0x2fu8, 0x2fu8] + server + seq![0x2fu8] + share;
            Some(PrefixView { anchor, verbatim: false, drive: false })
        }
    }
}

/// The components of what stands behind the prefix of a path: its root, or a dot
/// that it begins with, where `leading_dot` says that one counts, and its body.
pub open spec fn rooted_parts(
    bytes: Seq<u8>,
    root: Seq<u8>,
    roots: Separators,
    separators: Separators,
    implied_root: bool,
    leading_dot: bool,
) -> Seq<PartView> {
    if bytes.len() > 0 && separates(bytes[0], roots) {
        seq![PartView::Anchor(root)] + body_parts(bytes.skip(1), separators)
    } else if implied_root {
        seq![PartView::Anchor(root)] + body_parts(bytes, separators)
    } else if leading_dot && first_piece(bytes, separators) == dot() {
        seq![PartView::Current] + body_parts(bytes, separators)
    } else {
        body_parts(bytes, separators)
    }
}

/// The components of the path that bytes are on a platform.
pub open spec fn path_parts(bytes: Seq<u8>, platform: Platform) -> Seq<PartView> {
    match platform {
        Platform::Unix => rooted_parts(
            bytes,
            seq![0x2fu8],
            Separators::Slash,
            Separators::Slash,
            false,
            true,
        ),
        Platform::Windows => match windows_prefix(bytes) {
            None => rooted_parts(
                bytes,
                seq![0x5cu8],
                Separators::Both,
                Separators::Both,
                false,
                true,
            ),
            Some(prefix) => seq![PartView::Anchor(prefix.anchor)] + rooted_parts(
                bytes.skip(prefix.anchor.len() as int),
                seq![0x5cu8],
                Separators::Both,
                if prefix.verbatim {
                    Separators::Backslash
                } else {
                    Separators::Both
                },
                !prefix.verbatim && !prefix.drive,
                false,
            ),
        },
    }
}

/// Whether two texts are the same path on a platform: they have the same
/// components.
pub open spec fn is_same_path(a: Seq<char>, b: Seq<char>, platform: Platform) -> bool {
    path_parts(vstd::utf8::encode_utf8(a), platform) == path_parts(
        vstd::utf8::encode_utf8(b),
        platform,
    )
}

fn byte_separates(byte: u8, separators: Separators) -> (yes: bool)
    ensures
        yes == separates(byte, separators),
{
    match separators {
        Separators::Slash => byte == 0x2f,
        Separators::Both => byte == 0x2f || byte == 0x5c,
        Separators::Backslash => byte == 0x5c,
    }
}

/// Where the piece that begins at `from` ends.
fn end_of_first_piece(bytes: &[u8], from: usize, separators: Separators) -> (end: usize)
    requires
        from <= bytes@.len(),
    ensures
        end == from + piece_len(bytes@.skip(from as int), separators),
        from <= end <= bytes@.len(),
        first_piece(bytes@.skip(from as int), separators) == bytes@.subrange(
            from as int,
            end as int,
        ),
        behind_piece(bytes@.skip(from as int), separators) == bytes@.skip(
            if end < bytes@.len() {
                end + 1
            } else {
                end as int
            },
        ),
{
    let ghost whole = bytes@.skip(from as int);
    let mut end: usize = from;
    while end < bytes.len() && !byte_separates(bytes[end], separators)
        invariant
            from <= end <= bytes@.len(),
            piece_len(bytes@.skip(from as int), separators) == end - from + piece_len(
                bytes@.skip(end as int),
                separators,
            ),
        decreases bytes@.len() - end,
    {
        proof {
            assert(bytes@.skip(end as int).drop_first() =~= bytes@.skip(end + 1));
        }
        end = end + 1;
    }
    proof {
        assert(first_piece(whole, separators) =~= bytes@.subrange(from as int, end as int));
        assert(behind_piece(whole, separators) =~= bytes@.skip(
            if end < bytes@.len() {
                end + 1
            } else {
                end as int
            },
        ));
    }
    end
}

/// The bytes from `from` up to, not including, `end`.
fn bytes_between(bytes: &[u8], from: usize, end: usize) -> (out: Vec<u8>)
    requires
        from <= end <= bytes@.len(),
    ensures
        out@ == bytes@.subrange(from as int, end as int),
{
    let mut out: Vec<u8> = Vec::new();
    push_between(&mut out, bytes, from, end);
    proof {
        assert(out@ =~= bytes@.subrange(from as int, end as int));
    }
    out
}

fn push_between(out: &mut Vec<u8>, bytes: &[u8], from: usize, end: usize)
    requires
        from <= end <= bytes@.len(),
    ensures
        final(out)@ == old(out)@ + bytes@.subrange(from as int, end as int),
{
    let ghost start = out@;
    proof {
        assert(start + bytes@.subrange(from as int, from as int) =~= start);
    }
    for i in from..end
        invariant
            from <= i <= end <= bytes@.len(),
            out@ == start + bytes@.subrange(from as int, i as int),
    {
        out.push(bytes[i]);
        proof {
            assert(out@ =~= start + bytes@.subrange(from as int, i + 1));
        }
    }
}

fn piece_part(bytes: &[u8], from: usize, end: usize, separators: Separators) -> (part: Option<
    PathPart,
>)
    requires
        from <= end <= bytes@.len(),
    ensures
        part is Some <==> part_of_piece(
            bytes@.subrange(from as int, end as int),
            separators,
        ) is Some,
        part matches Some(p) ==> part_of_piece(
            bytes@.subrange(from as int, end as int),
            separators,
        ) == Some(p@),
{
    let ghost piece = bytes@.subrange(from as int, end as int);
    let len = end - from;
    if len == 0 {
        return None;
    }
    if len == 1 && bytes[from] == 0x2e {
        proof {
            assert(piece =~= dot());
        }
        return if separators == Separators::Backslash {
            Some(PathPart::Current)
        } else {
            None
        };
    }
    proof {
        if piece == dot() {
            assert(piece[0] == bytes@[from as int]);
        }
    }
    if len == 2 && bytes[from] == 0x2e && bytes[from + 1] == 0x2e {
        proof {
            assert(piece =~= dot() + dot());
        }
        return Some(PathPart::Parent);
    }
    proof {
        if piece == dot() + dot() {
            assert(piece[0] == bytes@[from as int]);
            assert(piece[1] == bytes@[from + 1]);
        }
    }
    Some(PathPart::Normal(bytes_between(bytes, from, end)))
}

/// Appends the components of what stands behind the root of a path.
fn push_body(parts: &mut Vec<PathPart>, bytes: &[u8], from: usize, separators: Separators)
    requires
        from <= bytes@.len(),
    ensures
        path::parts_view(final(parts)@) == path::parts_view(old(parts)@) + body_parts(
            bytes@.skip(from as int),
            separators,
        ),
{
    let ghost whole = path::parts_view(parts@) + body_parts(bytes@.skip(from as int), separators);
    let mut at: usize = from;
    while at < bytes.len()
        invariant
            at <= bytes@.len(),
            whole == path::parts_view(parts@) + body_parts(bytes@.skip(at as int), separators),
        decreases bytes@.len() - at,
    {
        let ghost before = path::parts_view(parts@);
        let end = end_of_first_piece(bytes, at, separators);
        let next: usize = if end < bytes.len() {
            end + 1
        } else {
            end
        };
        let ghost rest = body_parts(bytes@.skip(next as int), separators);
        match piece_part(bytes, at, end, separators) {
            Some(part) => {
                parts.push(part);
                proof {
                    assert(path::parts_view(parts@) =~= before.push(part@));
                    assert(before + (seq![part@] + rest) =~= path::parts_view(parts@) + rest);
                }
            },
            None => {},
        }
        proof {
            if next == at {
                assert(bytes@.skip(at as int)[0] == bytes@[at as int]);
            }
        }
        at = next;
    }
    proof {
        assert(path::parts_view(parts@) + Seq::<PartView>::empty() =~= path::parts_view(parts@));
    }
}

/// Appends the components of what stands behind the prefix of a path.
fn push_rooted(
    parts: &mut Vec<PathPart>,
    bytes: &[u8],
    from: usize,
    root: u8,
    roots: Separators,
    separators: Separators,
    implied_root: bool,
    leading_dot: bool,
)
    requires
        from <= bytes@.len(),
    ensures
        path::parts_view(final(parts)@) == path::parts_view(old(parts)@) + rooted_parts(
            bytes@.skip(from as int),
            seq![root],
            roots,
            separators,
            implied_root,
            leading_dot,
        ),
{
    let ghost before = path::parts_view(parts@);
    let ghost rest = bytes@.skip(from as int);
    let has_root = from < bytes.len() && byte_separates(bytes[from], roots);
    let mut at: usize = from;
    if has_root || implied_root {
        let anchor = vec![root];
        proof {
            assert(anchor@ =~= seq![root]);
        }
        parts.push(PathPart::Anchor(anchor));
        proof {
            assert(path::parts_view(parts@) =~= before.push(PartView::Anchor(seq![root])));
        }
        if has_root {
            at = from + 1;
            proof {
                assert(rest.skip(1) =~= bytes@.skip(at as int));
            }
        }
    } else if leading_dot {
        let end = end_of_first_piece(bytes, from, separators);
        if end - from == 1 && bytes[from] == 0x2e {
            proof {
                assert(first_piece(rest, separators) =~= dot());
            }
            parts.push(PathPart::Current);
            proof {
                assert(path::parts_view(parts@) =~= before.push(PartView::Current));
            }
        } else {
            proof {
                if first_piece(rest, separators) == dot() {
                    assert(first_piece(rest, separators)[0] == bytes@[from as int]);
                }
            }
        }
    }
    let ghost now = path::parts_view(parts@);
    push_body(parts, bytes, at, separators);
    proof {
        let body = body_parts(bytes@.skip(at as int), separators);
        assert(before + (seq![PartView::Anchor(seq![root])] + body) =~= before.push(
            PartView::Anchor(seq![root]),
        ) + body);
        assert(before + (seq![PartView::Current] + body) =~= before.push(PartView::Current) + body);
    }
}

fn starts_like(bytes: &[u8], start: &Vec<u8>) -> (yes: bool)
    ensures
        yes == begins_with(bytes@, start@),
{
    if bytes.len() < start.len() {
        return false;
    }
    for i in 0..start.len()
        invariant
            start@.len() <= bytes@.len(),
            forall|j: int|
                0 <= j < i ==> start@[j] == (if (#[trigger] bytes@[j]) == 0x2f {
                    0x5cu8
                } else {
                    bytes@[j]
                }),
    {
        let byte: u8 = if bytes[i] == 0x2f {
            0x5c
        } else {
            bytes[i]
        };
        if start[i] != byte {
            proof {
                assert(bytes@[i as int] == bytes[i as int]);
            }
            return false;
        }
    }
    true
}

/// The letter of the drive that stands at `from`.
fn drive_at(bytes: &[u8], from: usize) -> (letter: Option<u8>)
    requires
        from <= bytes@.len(),
    ensures
        letter == drive_letter(bytes@.skip(from as int)),
{
    if bytes.len() - from < 2 || bytes[from + 1] != 0x3a {
        return None;
    }
    let byte: u8 = bytes[from];
    if 0x41 <= byte && byte <= 0x5a {
        Some(byte)
    } else if 0x61 <= byte && byte <= 0x7a {
        Some(byte - 0x20)
    } else {
        None
    }
}

/// What a path on Windows begins with.
struct Prefix {
    anchor: Vec<u8>,
    verbatim: bool,
    drive: bool,
}

impl View for Prefix {
    type V = PrefixView;

    closed spec fn view(&self) -> PrefixView {
        PrefixView { anchor: self.anchor@, verbatim: self.verbatim, drive: self.drive }
    }
}

fn verbatim_prefix_of(bytes: &[u8]) -> (prefix: Prefix)
    requires
        bytes@.len() >= 4,
    ensures
        prefix@ == verbatim_prefix(bytes@),
        prefix@.anchor.len() <= bytes@.len(),
{
    let mut anchor: Vec<u8> = vec![0x5c, 0x5c, 0x3f, 0x5c, 0x55, 0x4e, 0x43, 0x5c];
    proof {
        assert(anchor@ =~= verbatim_share_start());
    }
    if starts_like(bytes, &anchor) {
        let end = end_of_first_piece(bytes, 8, Separators::Backslash);
        push_between(&mut anchor, bytes, 8, end);
        let next: usize = if end < bytes.len() {
            end + 1
        } else {
            end
        };
        let last = end_of_first_piece(bytes, next, Separators::Backslash);
        if last > next {
            anchor.push(0x5c);
            push_between(&mut anchor, bytes, next, last);
        }
        proof {
            assert(anchor@ =~= verbatim_prefix(bytes@).anchor);
        }
    } else {
        anchor = vec![0x5c, 0x5c, 0x3f, 0x5c];
        proof {
            assert(anchor@ =~= verbatim_start());
        }
        let ghost rest = bytes@.skip(4);
        let letter = drive_at(bytes, 4);
        let alone = bytes.len() <= 6 || byte_separates(bytes[6], Separators::Both);
        match letter {
            Some(letter) if alone => {
                anchor.push(letter);
                anchor.push(0x3a);
                proof {
                    assert(anchor@ =~= verbatim_prefix(bytes@).anchor);
                }
            },
            _ => {
                let end = end_of_first_piece(bytes, 4, Separators::Backslash);
                push_between(&mut anchor, bytes, 4, end);
                proof {
                    assert(anchor@ =~= verbatim_prefix(bytes@).anchor);
                }
            },
        }
    }
    Prefix { anchor, verbatim: true, drive: false }
}

/// Whether bytes begin like a verbatim path.
pub fn starts_verbatim(bytes: &[u8]) -> (yes: bool)
    ensures
        yes == (bytes@.len() >= 4 && bytes@.take(4) == verbatim_start()),
{
    let verbatim = bytes.len() >= 4 && bytes[0] == 0x5c && bytes[1] == 0x5c && bytes[2] == 0x3f
        && bytes[3] == 0x5c;
    proof {
        if verbatim {
            assert(bytes@.take(4) =~= verbatim_start());
        } else if bytes@.len() >= 4 && bytes@.take(4) == verbatim_start() {
            assert(bytes@[0] == bytes@.take(4)[0]);
            assert(bytes@[1] == bytes@.take(4)[1]);
            assert(bytes@[2] == bytes@.take(4)[2]);
            assert(bytes@[3] == bytes@.take(4)[3]);
        }
    }
    verbatim
}

fn prefix_of(bytes: &[u8]) -> (prefix: Option<Prefix>)
    ensures
        prefix is Some <==> windows_prefix(bytes@) is Some,
        prefix matches Some(p) ==> windows_prefix(bytes@) == Some(p@) && p@.anchor.len()
            <= bytes@.len(),
{
    let share: Vec<u8> = vec![0x5c, 0x5c];
    let device: Vec<u8> = vec![0x5c, 0x5c, 0x2e, 0x5c];
    proof {
        assert(share@ =~= share_start());
        assert(device@ =~= device_start());
        assert(bytes@.skip(0) =~= bytes@);
    }
    if !starts_like(bytes, &share) {
        return match drive_at(bytes, 0) {
            Some(letter) => {
                let anchor = vec![letter, 0x3a];
                proof {
                    assert(anchor@ =~= seq![letter, 0x3au8]);
                }
                Some(Prefix { anchor, verbatim: false, drive: true })
            },
            None => None,
        };
    }
    if starts_verbatim(bytes) {
        return Some(verbatim_prefix_of(bytes));
    }
    if starts_like(bytes, &device) {
        let end = end_of_first_piece(bytes, 4, Separators::Both);
        let mut anchor = device;
        push_between(&mut anchor, bytes, 4, end);
        return Some(Prefix { anchor, verbatim: false, drive: false });
    }
    let end = end_of_first_piece(bytes, 2, Separators::Both);
    let next: usize = if end < bytes.len() {
        end + 1
    } else {
        end
    };
    let last = end_of_first_piece(bytes, next, Separators::Both);
    if end == 2 || last == next {
        return None;
    }
    let mut anchor: Vec<u8> = vec![0x2f, 0x2f];
    proof {
        assert(anchor@ =~= seq![0x2fu8, 0x2fu8]);
    }
    push_between(&mut anchor, bytes, 2, end);
    anchor.push(0x2f);
    push_between(&mut anchor, bytes, next, last);
    proof {
        assert(anchor@ =~= windows_prefix(bytes@)->0.anchor);
    }
    Some(Prefix { anchor, verbatim: false, drive: false })
}

impl FsPath {
    /// The path that bytes are on a platform.
    pub fn of_bytes(bytes: &[u8], platform: Platform) -> (path: FsPath)
        ensures
            path@ == path_parts(bytes@, platform),
    {
        let mut parts: Vec<PathPart> = Vec::new();
        let ghost none = path::parts_view(parts@);
        proof {
            assert(bytes@.skip(0) =~= bytes@);
            assert(none =~= Seq::<PartView>::empty());
        }
        match platform {
            Platform::Unix => {
                push_rooted(
                    &mut parts,
                    bytes,
                    0,
                    0x2f,
                    Separators::Slash,
                    Separators::Slash,
                    false,
                    true,
                );
            },
            Platform::Windows => match prefix_of(bytes) {
                None => {
                    push_rooted(
                        &mut parts,
                        bytes,
                        0,
                        0x5c,
                        Separators::Both,
                        Separators::Both,
                        false,
                        true,
                    );
                },
                Some(prefix) => {
                    let from = prefix.anchor.len();
                    let separators = if prefix.verbatim {
                        Separators::Backslash
                    } else {
                        Separators::Both
                    };
                    let implied = !prefix.verbatim && !prefix.drive;
                    parts.push(PathPart::Anchor(prefix.anchor));
                    proof {
                        assert(path::parts_view(parts@) =~= seq![PartView::Anchor(prefix@.anchor)]);
                    }
                    push_rooted(
                        &mut parts,
                        bytes,
                        from,
                        0x5c,
                        Separators::Both,
                        separators,
                        implied,
                        false,
                    );
                },
            },
        }
        let path = FsPath { parts };
        proof {
            assert(path@ =~= path_parts(bytes@, platform));
        }
        path
    }
}

/// Whether two texts are the same path on a platform.
pub fn same_text_path(a: &str, b: &str, platform: Platform) -> (same: bool)
    ensures
        same == is_same_path(a@, b@, platform),
{
    let a = FsPath::of_bytes(text::bytes_of(a).as_slice(), platform);
    let b = FsPath::of_bytes(text::bytes_of(b).as_slice(), platform);
    a.same(&b)
}

/// The last component of the path with a text, where it is a name.
pub open spec fn file_name_text(text: Seq<char>, platform: Platform) -> Option<Seq<char>> {
    match path::last_name(path_parts(vstd::utf8::encode_utf8(text), platform)) {
        Some(bytes) => path::utf8(bytes),
        None => None,
    }
}

pub fn file_name_of_text(text: &str, platform: Platform) -> (name: Option<String>)
    ensures
        text::maybe(name) == file_name_text(text@, platform),
{
    let path = FsPath::of_bytes(text::bytes_of(text).as_slice(), platform);
    match path.file_name() {
        Some(bytes) => text::utf8_text(bytes),
        None => None,
    }
}

/// The extension of the last component of the path with a text.
pub open spec fn extension_text(text: Seq<char>, platform: Platform) -> Option<Seq<char>> {
    match path::last_extension(path_parts(vstd::utf8::encode_utf8(text), platform)) {
        Some(bytes) => path::utf8(bytes),
        None => None,
    }
}

pub fn extension_of_text(text: &str, platform: Platform) -> (extension: Option<String>)
    ensures
        text::maybe(extension) == extension_text(text@, platform),
{
    let path = FsPath::of_bytes(text::bytes_of(text).as_slice(), platform);
    match path.extension() {
        Some(bytes) => text::utf8_text(bytes),
        None => None,
    }
}

proof fn lemma_piece_of_sum(a: Seq<u8>, b: Seq<u8>)
    ensures
        piece_len(a + seq![0x2fu8] + b, Separators::Slash) == piece_len(a, Separators::Slash),
        piece_len(a, Separators::Slash) <= a.len(),
    decreases a.len(),
{
    let whole = a + seq![0x2fu8] + b;
    if a.len() > 0 {
        lemma_piece_of_sum(a.drop_first(), b);
        assert(whole.drop_first() =~= a.drop_first() + seq![0x2fu8] + b);
        assert(whole[0] == a[0]);
    } else {
        assert(whole[0] == 0x2fu8);
    }
}

proof fn lemma_body_of_sum(a: Seq<u8>, b: Seq<u8>)
    ensures
        body_parts(a + seq![0x2fu8] + b, Separators::Slash) == body_parts(a, Separators::Slash)
            + body_parts(b, Separators::Slash),
    decreases a.len(),
{
    let whole = a + seq![0x2fu8] + b;
    let len = piece_len(a, Separators::Slash) as int;
    lemma_piece_of_sum(a, b);
    assert(first_piece(whole, Separators::Slash) =~= first_piece(a, Separators::Slash));
    if len < a.len() {
        let rest = a.skip(len + 1);
        assert(whole.skip(len + 1) =~= rest + seq![0x2fu8] + b);
        lemma_body_of_sum(rest, b);
        assert(behind_piece(a, Separators::Slash) == rest);
    } else {
        assert(whole.skip(len + 1) =~= b);
        assert(behind_piece(a, Separators::Slash) =~= Seq::<u8>::empty());
        assert(body_parts(Seq::<u8>::empty(), Separators::Slash) =~= Seq::<PartView>::empty());
    }
    assert(behind_piece(whole, Separators::Slash) == whole.skip(len + 1));
    if a.len() == 0 {
        assert(body_parts(a, Separators::Slash) =~= Seq::<PartView>::empty());
        assert(first_piece(whole, Separators::Slash).len() == 0);
    }
    assert(body_parts(whole, Separators::Slash) =~= body_parts(a, Separators::Slash) + body_parts(
        b,
        Separators::Slash,
    ));
}

proof fn lemma_whole_piece(name: Seq<u8>)
    requires
        !name.contains(0x2fu8),
    ensures
        piece_len(name, Separators::Slash) == name.len(),
    decreases name.len(),
{
    if name.len() > 0 {
        assert(name.contains(name[0]));
        let rest = name.drop_first();
        assert(!rest.contains(0x2fu8)) by {
            if rest.contains(0x2fu8) {
                let i = choose|i: int| 0 <= i < rest.len() && rest[i] == 0x2fu8;
                assert(name[i + 1] == 0x2fu8);
            }
        }
        lemma_whole_piece(rest);
    }
}

/// On Unix, a name behind a slash is one more component of a path; a dot, or nothing,
/// behind it is none, so that neither doubled slashes nor dots make another path.
pub proof fn names_behind_a_slash_are_components(base: Seq<u8>, name: Seq<u8>)
    requires
        base.len() > 0,
        !name.contains(0x2fu8),
    ensures
        path_parts(base + seq![0x2fu8] + name, Platform::Unix) == (if name.len() == 0 || name
            == seq![0x2eu8] {
            path_parts(base, Platform::Unix)
        } else if name == seq![0x2eu8, 0x2eu8] {
            path_parts(base, Platform::Unix).push(PartView::Parent)
        } else {
            path_parts(base, Platform::Unix).push(PartView::Normal(name))
        }),
{
    let whole = base + seq![0x2fu8] + name;
    lemma_body_of_sum(base, name);
    lemma_piece_of_sum(base, name);
    assert(first_piece(whole, Separators::Slash) =~= first_piece(base, Separators::Slash));
    lemma_whole_piece(name);
    assert(first_piece(name, Separators::Slash) =~= name);
    assert(behind_piece(name, Separators::Slash) =~= Seq::<u8>::empty());
    assert(body_parts(Seq::<u8>::empty(), Separators::Slash) =~= Seq::<PartView>::empty());
    assert(dot() + dot() =~= seq![0x2eu8, 0x2eu8]);
    let own = body_parts(name, Separators::Slash);
    let wanted = path_parts(base, Platform::Unix) + own;
    if base[0] == 0x2f {
        assert(whole.skip(1) =~= base.skip(1) + seq![0x2fu8] + name);
        lemma_body_of_sum(base.skip(1), name);
    }
    assert(path_parts(whole, Platform::Unix) =~= wanted);
    if name.len() > 0 {
        match part_of_piece(name, Separators::Slash) {
            Some(part) => {
                assert(own =~= seq![part]);
                assert(wanted =~= path_parts(base, Platform::Unix).push(part));
            },
            None => {
                assert(own =~= Seq::<PartView>::empty());
                assert(wanted =~= path_parts(base, Platform::Unix));
            },
        }
    } else {
        assert(own =~= Seq::<PartView>::empty());
        assert(wanted =~= path_parts(base, Platform::Unix));
    }
}

/// On Unix, a path begins at the root exactly if it begins with a slash.
pub proof fn paths_begin_at_the_root_with_a_slash(bytes: Seq<u8>)
    ensures
        bytes.len() > 0 && bytes[0] == 0x2f ==> path_parts(bytes, Platform::Unix).len() > 0
            && path_parts(bytes, Platform::Unix)[0] == PartView::Anchor(seq![0x2fu8]),
        bytes.len() == 0 || bytes[0] != 0x2f ==> !(path_parts(bytes, Platform::Unix).len() > 0
            && path_parts(bytes, Platform::Unix)[0] is Anchor),
{
    lemma_no_anchor(bytes);
}

proof fn lemma_no_anchor(bytes: Seq<u8>)
    ensures
        forall|i: int|
            0 <= i < body_parts(bytes, Separators::Slash).len() ==> !((#[trigger] body_parts(
                bytes,
                Separators::Slash,
            )[i]) is Anchor),
    decreases bytes.len(),
{
    if bytes.len() > 0 {
        lemma_piece_len(bytes, Separators::Slash);
        lemma_no_anchor(behind_piece(bytes, Separators::Slash));
    }
}

/// A slash parts the components of a path, and on Windows a backslash does too; behind the
/// start that takes a path as it stands, a backslash alone does.
pub proof fn slashes_and_backslashes_part_components(byte: u8)
    ensures
        separates(byte, Separators::Slash) <==> byte == 0x2f,
        separates(byte, Separators::Both) <==> byte == 0x2f || byte == 0x5c,
        separates(byte, Separators::Backslash) <==> byte == 0x5c,
{
}

proof fn lemma_piece_before(piece: Seq<u8>, byte: u8, rest: Seq<u8>, separators: Separators)
    requires
        forall|i: int| 0 <= i < piece.len() ==> !separates(#[trigger] piece[i], separators),
        separates(byte, separators),
    ensures
        piece_len(piece + seq![byte] + rest, separators) == piece.len(),
        piece_len(piece, separators) == piece.len(),
    decreases piece.len(),
{
    let whole = piece + seq![byte] + rest;
    if piece.len() > 0 {
        let shorter = piece.drop_first();
        assert forall|i: int| 0 <= i < shorter.len() implies !separates(
            #[trigger] shorter[i],
            separators,
        ) by {
            assert(shorter[i] == piece[i + 1]);
        }
        lemma_piece_before(shorter, byte, rest, separators);
        assert(whole.drop_first() =~= shorter + seq![byte] + rest);
        assert(!separates(piece[0], separators));
    }
}

/// What stands before a separator is one component: two dots are the directory above, one
/// dot and nothing are none, and all else is a name. Where a path is taken as it stands,
/// a dot is a component too.
pub proof fn pieces_before_a_separator_are_components(
    piece: Seq<u8>,
    byte: u8,
    rest: Seq<u8>,
    separators: Separators,
)
    requires
        forall|i: int| 0 <= i < piece.len() ==> !separates(#[trigger] piece[i], separators),
        separates(byte, separators),
    ensures
        ({
            let found = body_parts(piece + seq![byte] + rest, separators);
            let behind = body_parts(rest, separators);
            &&& piece.len() == 0 ==> found == behind
            &&& piece == seq![0x2eu8] && !(separators is Backslash) ==> found == behind
            &&& piece == seq![0x2eu8] && separators is Backslash ==> found == seq![
                PartView::Current,
            ] + behind
            &&& piece == seq![0x2eu8, 0x2eu8] ==> found == seq![PartView::Parent] + behind
            &&& piece.len() > 0 && piece != seq![0x2eu8] && piece != seq![0x2eu8, 0x2eu8] ==> found
                == seq![PartView::Normal(piece)] + behind
        }),
{
    let whole = piece + seq![byte] + rest;
    lemma_piece_before(piece, byte, rest, separators);
    assert(first_piece(whole, separators) =~= piece);
    assert(behind_piece(whole, separators) =~= rest);
    assert(dot() + dot() =~= seq![0x2eu8, 0x2eu8]);
    assert(dot() =~= seq![0x2eu8]);
}

/// On Windows, a path that begins with a letter and a colon begins at that drive, the
/// letter in upper case; and at the root of the drive where a separator follows.
pub proof fn drives_are_anchors(letter: u8, rest: Seq<u8>)
    requires
        0x61 <= letter <= 0x7a || 0x41 <= letter <= 0x5a,
    ensures
        ({
            let upper: u8 = if letter >= 0x61 {
                (letter - 0x20) as u8
            } else {
                letter
            };
            let parts = path_parts(seq![letter, 0x3au8] + rest, Platform::Windows);
            &&& parts.len() >= 1
            &&& parts[0] == PartView::Anchor(seq![upper, 0x3au8])
            &&& rest.len() > 0 && (rest[0] == 0x2f || rest[0] == 0x5c) ==> parts.len() >= 2
                && parts[1] == PartView::Anchor(seq![0x5cu8]) && parts.skip(2) == body_parts(
                rest.skip(1),
                Separators::Both,
            )
            &&& rest.len() == 0 || (rest[0] != 0x2f && rest[0] != 0x5c) ==> parts.skip(1)
                == body_parts(rest, Separators::Both)
        }),
{
    let bytes = seq![letter, 0x3au8] + rest;
    assert(bytes[0] == letter && bytes[1] == 0x3a);
    assert(share_start()[0] == 0x5c);
    assert(!begins_with(bytes, share_start()));
    assert(bytes.skip(2) =~= rest);
    let parts = path_parts(bytes, Platform::Windows);
    if rest.len() > 0 && (rest[0] == 0x2f || rest[0] == 0x5c) {
        assert(parts.skip(2) =~= body_parts(rest.skip(1), Separators::Both));
    } else {
        assert(parts.skip(1) =~= body_parts(rest, Separators::Both));
    }
}

/// On Windows, a path that begins with two separators, a server and a share begins at
/// the root of that share.
pub proof fn shares_are_anchors(server: Seq<u8>, share: Seq<u8>, rest: Seq<u8>)
    requires
        server.len() > 0,
        share.len() > 0,
        server != seq![0x3fu8],
        server != seq![0x2eu8],
        forall|i: int| 0 <= i < server.len() ==> !separates(#[trigger] server[i], Separators::Both),
        forall|i: int| 0 <= i < share.len() ==> !separates(#[trigger] share[i], Separators::Both),
    ensures
        ({
            let parts = path_parts(
                seq![0x5cu8, 0x5cu8] + server + seq![0x5cu8] + share + seq![0x5cu8] + rest,
                Platform::Windows,
            );
            &&& parts.len() >= 2
            &&& parts[0] == PartView::Anchor(
                seq![0x2fu8, 0x2fu8] + server + seq![0x2fu8] + share,
            )
            &&& parts[1] == PartView::Anchor(seq![0x5cu8])
            &&& parts.skip(2) == body_parts(rest, Separators::Both)
        }),
{
    let bytes = seq![0x5cu8, 0x5cu8] + server + seq![0x5cu8] + share + seq![0x5cu8] + rest;
    let behind = share + seq![0x5cu8] + rest;
    assert(bytes.skip(2) =~= server + seq![0x5cu8] + behind);
    lemma_piece_before(server, 0x5c, behind, Separators::Both);
    lemma_piece_before(share, 0x5c, rest, Separators::Both);
    assert(first_piece(bytes.skip(2), Separators::Both) =~= server);
    assert(behind_piece(bytes.skip(2), Separators::Both) =~= behind);
    assert(first_piece(behind, Separators::Both) =~= share);
    assert(bytes[0] == 0x5c && bytes[1] == 0x5c);
    assert(begins_with(bytes, share_start()));
    assert(bytes[2] == server[0]);
    if server.len() == 1 {
        assert(server =~= seq![server[0]]);
        assert(server[0] != 0x3f && server[0] != 0x2e);
    } else {
        assert(bytes[3] == server[1]);
        assert(!separates(server[1], Separators::Both));
    }
    assert(verbatim_start()[2] == 0x3f && verbatim_start()[3] == 0x5c);
    assert(device_start()[2] == 0x2e && device_start()[3] == 0x5c);
    if bytes.take(4) == verbatim_start() {
        assert(bytes.take(4)[2] == bytes[2] && bytes.take(4)[3] == bytes[3]);
    }
    assert(!begins_with(bytes, device_start()));
    let anchor = seq![0x2fu8, 0x2fu8] + server + seq![0x2fu8] + share;
    assert(bytes.skip(anchor.len() as int) =~= seq![0x5cu8] + rest);
    assert((seq![0x5cu8] + rest).skip(1) =~= rest);
    let parts = path_parts(bytes, Platform::Windows);
    assert(parts.skip(2) =~= body_parts(rest, Separators::Both));
}

} // verus!
