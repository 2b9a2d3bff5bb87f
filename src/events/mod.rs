use vstd::prelude::*;

pub mod action;
pub mod field;
pub mod utils;
pub mod world_char;

use crate::events::utils::{agree_from, is_truncated};

verus! {

/// Why an instruction or a script could not be decoded.
#[derive(Clone, Copy, Debug, PartialEq, Eq, Structural)]
pub enum ParseError {
    /// No instruction of the dialect has the byte `tag` found at `offset`.
    UnrecognizedTag { tag: u8, offset: usize },
    /// The instruction starting at `offset` runs past the end of the data.
    Truncated { offset: usize },
}

/// A decoded script, tagged with the dialect it was read in.
#[derive(Clone, Debug, PartialEq)]
pub enum Script {
    FieldScript(field::Script),
    WorldCharScript(world_char::Script),
}

/// Neither dialect could decode a script at `offset`.
#[derive(Clone, Copy, Debug, PartialEq, Eq, Structural)]
pub struct DialectMismatch {
    pub offset: usize,
    pub world_char: ParseError,
    pub field: ParseError,
}

/// What a scan of a byte stream found.
#[derive(Clone, Debug, PartialEq)]
pub struct ScanResult {
    /// Each script with the offset just past its terminator, in stream order.
    pub scripts: Vec<(usize, Script)>,
    /// How many bytes at the end of the stream were left undecoded.
    pub remaining: usize,
    /// Why the scan stopped early, if it did.
    pub mismatch: Option<DialectMismatch>,
}

/// Whether a script of either dialect starts at `pos`.
pub open spec fn script_found(data: Seq<u8>, pos: int) -> bool {
    world_char::script_error(data, pos) is None || field::script_error(data, pos) is None
}

/// Where the script that the scan takes at `pos` ends: the world character
/// dialect is tried first.
pub open spec fn found_end(data: Seq<u8>, pos: int) -> int {
    if world_char::script_error(data, pos) is None {
        world_char::script_end(data, pos)
    } else {
        field::script_end(data, pos)
    }
}

/// The offsets that a scan from `pos` records: each just past a script.
pub open spec fn scan_ends(data: Seq<u8>, pos: int) -> Seq<int>
    decreases data.len() - pos,
{
    if pos < 0 || pos >= data.len() || !script_found(data, pos) || found_end(data, pos) <= pos
        || found_end(data, pos) > data.len() {
        Seq::empty()
    } else {
        seq![found_end(data, pos)] + scan_ends(data, found_end(data, pos))
    }
}

/// Where a scan from `pos` stops.
pub open spec fn scan_stop(data: Seq<u8>, pos: int) -> int
    decreases data.len() - pos,
{
    if pos < 0 || pos >= data.len() || !script_found(data, pos) || found_end(data, pos) <= pos
        || found_end(data, pos) > data.len() {
        pos
    } else {
        scan_stop(data, found_end(data, pos))
    }
}

/// Where the `i`-th script of a scan from the start begins.
pub open spec fn entry_start(ends: Seq<int>, i: int) -> int {
    if i == 0 {
        0
    } else {
        ends[i - 1]
    }
}

/// Whether `s` is the script that the scan takes at `pos`, in its dialect.
pub open spec fn script_matches(data: Seq<u8>, pos: int, s: Script) -> bool {
    match s {
        Script::WorldCharScript(w) => {
            &&& world_char::script_error(data, pos) is None
            &&& world_char::script_at(data, pos, w.events@)
        },
        Script::FieldScript(f) => {
            &&& world_char::script_error(data, pos) is Some
            &&& field::script_error(data, pos) is None
            &&& field::script_at(data, pos, f.events@)
        },
    }
}

/// The recorded offsets of scanned scripts.
pub open spec fn keys(scripts: Seq<(usize, Script)>) -> Seq<int> {
    scripts.map_values(|e: (usize, Script)| e.0 as int)
}

proof fn lemma_found_end_bounds(data: Seq<u8>, pos: int)
    requires
        script_found(data, pos),
    ensures
        pos < found_end(data, pos) <= data.len(),
{
    if world_char::script_error(data, pos) is None {
        world_char::lemma_script_end_bounds(data, pos);
    } else {
        field::lemma_script_end_bounds(data, pos);
    }
}

proof fn lemma_concat_agrees(a: Seq<u8>, b: Seq<u8>)
    ensures
        agree_from(a, a + b, 0, 0),
        agree_from(b, a + b, 0, a.len() as int),
{
    assert forall|i: int| 0 <= i < a.len() implies (a + b)[i + 0] == #[trigger] a[i] by {}
    assert forall|i: int| 0 <= i < b.len() implies (a + b)[i + a.len()] == #[trigger] b[i] by {}
}

proof fn lemma_scan_single(d: Seq<u8>)
    requires
        scan_ends(d, 0) == seq![d.len() as int],
    ensures
        script_found(d, 0),
        found_end(d, 0) == d.len(),
{
    let fe = found_end(d, 0);
    if 0 < d.len() && script_found(d, 0) && 0 < fe <= d.len() {
        assert(scan_ends(d, 0) == seq![fe] + scan_ends(d, fe));
        assert((seq![fe] + scan_ends(d, fe))[0] == fe);
    } else {
        assert(scan_ends(d, 0).len() == 0);
    }
}

/// Two streams that each scan as exactly one script, the first of which the
/// world character dialect does not reject merely for running out of bytes,
/// scan back to back as exactly those two scripts: recorded just past the end
/// of the first and at the end of the whole, so that their byte ranges do not
/// overlap and together cover the input.
pub proof fn lemma_scan_concat(a: Seq<u8>, b: Seq<u8>)
    requires
        (a + b).len() <= usize::MAX,
        scan_ends(a, 0) == seq![a.len() as int],
        scan_ends(b, 0) == seq![b.len() as int],
        !is_truncated(world_char::script_error(a, 0)),
    ensures
        scan_ends(a + b, 0) == seq![a.len() as int, (a.len() + b.len()) as int],
        scan_stop(a + b, 0) == (a + b).len(),
        forall|s: Script| script_matches(a + b, 0, s) == script_matches(a, 0, s),
        forall|s: Script| script_matches(a + b, a.len() as int, s) == script_matches(b, 0, s),
{
    let ab = a + b;
    let la = a.len() as int;
    lemma_concat_agrees(a, b);
    // The first script reads the same within `ab` as alone.
    world_char::lemma_script_frame(a, ab, 0, 0);
    if world_char::script_error(a, 0) is Some {
        field::lemma_script_frame(a, ab, 0, 0);
    }
    lemma_scan_single(a);
    assert(found_end(ab, 0) == la);
    assert forall|s: Script| script_matches(ab, 0, s) == script_matches(a, 0, s) by {}
    // The second script reads the same at the end of `ab` as alone.
    world_char::lemma_script_frame(b, ab, la, 0);
    field::lemma_script_frame(b, ab, la, 0);
    lemma_scan_single(b);
    assert(found_end(ab, la) == ab.len());
    assert forall|s: Script| script_matches(ab, la, s) == script_matches(b, 0, s) by {}
    assert(scan_ends(ab, ab.len() as int) =~= Seq::<int>::empty());
    assert(scan_ends(ab, la) =~= seq![ab.len() as int]);
    assert(scan_ends(ab, 0) =~= seq![la, ab.len() as int]);
    assert(scan_stop(ab, ab.len() as int) == ab.len());
    assert(scan_stop(ab, la) == ab.len());
}

/// Scans `data` from its start for scripts: at each offset the world
/// character dialect is tried, then the field dialect; the first that decodes
/// a whole script is taken, and the scan goes on just past it. The scan stops
/// at the end of the data or at the first offset where neither dialect
/// decodes, and keeps what it found before.
pub fn parse(data: &[u8]) -> (r: ScanResult)
    ensures
        keys(r.scripts@) == scan_ends(data@, 0),
        forall|i: int|
            0 <= i < r.scripts@.len() ==> script_matches(
                data@,
                entry_start(scan_ends(data@, 0), i),
                (#[trigger] r.scripts@[i]).1,
            ),
        r.remaining == data@.len() - scan_stop(data@, 0),
        r.mismatch == (if scan_stop(data@, 0) == data@.len() {
            None
        } else {
            Some(
                DialectMismatch {
                    offset: scan_stop(data@, 0) as usize,
                    world_char: world_char::script_error(data@, scan_stop(data@, 0))->Some_0,
                    field: field::script_error(data@, scan_stop(data@, 0))->Some_0,
                },
            )
        }),
{
    let mut scripts: Vec<(usize, Script)> = Vec::new();
    let mut pos: usize = 0;
    while pos < data.len()
        invariant
            pos <= data@.len(),
            scan_ends(data@, 0) == keys(scripts@) + scan_ends(data@, pos as int),
            scan_stop(data@, 0) == scan_stop(data@, pos as int),
            pos == entry_start(scan_ends(data@, 0), scripts@.len() as int),
            forall|i: int|
                0 <= i < scripts@.len() ==> script_matches(
                    data@,
                    entry_start(scan_ends(data@, 0), i),
                    (#[trigger] scripts@[i]).1,
                ),
        decreases data@.len() - pos,
    {
        let ghost old_keys = keys(scripts@);
        let found = match world_char::parse_script(data, pos) {
            Ok((s, end)) => (end, Script::WorldCharScript(s)),
            Err(world_err) => match field::parse_script(data, pos) {
                Ok((s, end)) => (end, Script::FieldScript(s)),
                Err(field_err) => {
                    let mismatch = DialectMismatch {
                        offset: pos,
                        world_char: world_err,
                        field: field_err,
                    };
                    return ScanResult {
                        scripts,
                        remaining: data.len() - pos,
                        mismatch: Some(mismatch),
                    };
                },
            },
        };
        let end = found.0;
        proof {
            lemma_found_end_bounds(data@, pos as int);
            assert(keys(scripts@.push(found)) =~= old_keys.push(end as int));
            assert(scan_ends(data@, pos as int) =~= seq![end as int] + scan_ends(data@, end as int));
            assert(keys(scripts@) + scan_ends(data@, pos as int) =~= old_keys.push(end as int)
                + scan_ends(data@, end as int));
        }
        scripts.push(found);
        pos = end;
    }
    ScanResult { scripts, remaining: 0, mismatch: None }
}

} // verus!
