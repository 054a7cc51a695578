//! The diagnostic model, and its construction from a structured build-check
//! output stream.
//!
//! A structured stream is a sequence of lines, each a machine-readable build
//! message. The compiler-emitted messages among them carry a severity level,
//! an optionally rendered text and an optional error code. A message counts
//! as an actionable diagnostic when its level is known and, for errors and
//! warnings, when it carries a code: error and warning messages without one
//! are aggregate trailers ("aborting due to N previous errors") and are
//! filtered out during construction.
use vstd::prelude::*;

use cargo_metadata::diagnostic::DiagnosticLevel;
use cargo_metadata::Message;

use crate::text::line_seq;

verus! {

/// What reading a structured stream yields: either the raw diagnostics it
/// carries, in stream order, or the error that reading it gives. The stream
/// format is line-delimited and self-contained, so the whole outcome —
/// success or failure, and which failure — is a function of the bytes alone;
/// the name is given meaning only through `parse_message_stream`.
pub uninterp spec fn parse_outcome(bytes: Seq<u8>) -> Result<Seq<RawDiagnostic>, SourceError>;

/// The deepest JSON bracket nesting the stream reader accepts in one line:
/// far above what real build messages reach, and far below what a recursive
/// reader with its recursion guard switched off could take.
pub const DEPTH_LIMIT: usize = 1000;

/// The state of the nesting scan: how many brackets are open outside string
/// literals, and whether the scan stands inside a string literal, right
/// after its escape character.
pub struct ScanState {
    pub depth: int,
    pub in_string: bool,
    pub escaped: bool,
}

/// The scan state at the start of the stream, and of each of its lines.
pub open spec fn scan_start() -> ScanState {
    ScanState { depth: 0, in_string: false, escaped: false }
}

/// One byte of the nesting scan: a line break starts the next line's
/// document afresh, string literals are skipped (with `\` escaping any
/// following byte), an opening `{` or `[` outside a string deepens, and a
/// closing `}` or `]` shallows. The escape flag is only ever raised inside a
/// string, so the branches outside one carry it through unchanged.
pub open spec fn scan_step(st: ScanState, b: u8) -> ScanState {
    if b == 10 {
        scan_start()
    } else if st.in_string {
        if st.escaped {
            ScanState { depth: st.depth, in_string: true, escaped: false }
        } else if b == 92 {
            ScanState { depth: st.depth, in_string: true, escaped: true }
        } else if b == 34 {
            ScanState { depth: st.depth, in_string: false, escaped: false }
        } else {
            st
        }
    } else {
        if b == 34 {
            ScanState { depth: st.depth, in_string: true, escaped: st.escaped }
        } else if b == 123 || b == 91 {
            ScanState { depth: st.depth + 1, in_string: false, escaped: st.escaped }
        } else if (b == 125 || b == 93) && st.depth > 0 {
            ScanState { depth: st.depth - 1, in_string: false, escaped: st.escaped }
        } else {
            st
        }
    }
}

/// The scan state after the first `i` bytes of the stream.
pub open spec fn scan_at(bytes: Seq<u8>, i: int) -> ScanState
    decreases i,
{
    if i <= 0 {
        scan_start()
    } else {
        scan_step(scan_at(bytes, i - 1), bytes[i - 1])
    }
}

/// Whether the stream's bracket nesting stays within `limit` throughout.
/// Every level of real JSON nesting opens a bracket outside a string, so a
/// stream within the bound is safe to hand to a recursive reader.
pub open spec fn stream_depth_bounded(bytes: Seq<u8>, limit: int) -> bool {
    forall|i: int| 0 <= i <= bytes.len() ==> scan_at(bytes, i).depth <= limit
}

/// Whether the stream's bracket nesting stays within the accepted bound.
pub fn stream_depth_within(bytes: &[u8]) -> (r: bool)
    ensures
        r == stream_depth_bounded(bytes@, DEPTH_LIMIT as int),
{
    let n = bytes.len();
    let mut depth: usize = 0;
    let mut in_string = false;
    let mut escaped = false;
    let mut i: usize = 0;
    while i < n
        invariant
            0 <= i <= n,
            n == bytes@.len(),
            scan_at(bytes@, i as int) == (ScanState {
                depth: depth as int,
                in_string,
                escaped,
            }),
            depth <= DEPTH_LIMIT,
            forall|j: int| 0 <= j <= i ==> scan_at(bytes@, j).depth <= DEPTH_LIMIT as int,
        decreases n - i,
    {
        let b = bytes[i];
        if b == 10 {
            depth = 0;
            in_string = false;
            escaped = false;
        } else if in_string {
            if escaped {
                escaped = false;
            } else if b == 92 {
                escaped = true;
            } else if b == 34 {
                in_string = false;
            }
        } else {
            if b == 34 {
                in_string = true;
            } else if b == 123 || b == 91 {
                if depth >= DEPTH_LIMIT {
                    proof {
                        assert(scan_at(bytes@, i + 1) == scan_step(
                            scan_at(bytes@, i as int),
                            bytes@[i as int],
                        ));
                        assert(scan_at(bytes@, i + 1).depth > DEPTH_LIMIT as int);
                    }
                    return false;
                }
                depth = depth + 1;
            } else if (b == 125 || b == 93) && depth > 0 {
                depth = depth - 1;
            }
        }
        proof {
            assert(scan_at(bytes@, i + 1) == scan_step(
                scan_at(bytes@, i as int),
                bytes@[i as int],
            ));
        }
        i = i + 1;
    }
    true
}

/// The severity of a diagnostic.
#[derive(Clone, Copy, Debug, PartialEq, Eq, Structural)]
pub enum Level {
    Error,
    Warning,
    Note,
    Help,
    InternalCompilerError,
    Unknown,
}

/// Why a diagnostic collection could not be built.
#[derive(Clone, Copy, Debug, PartialEq, Eq, Structural)]
pub enum SourceError {
    /// The external build tool could not be run. Raised by the caller that
    /// runs it; never produced here.
    ProcessInvocation,
    /// The output bytes are not valid text.
    Encoding,
    /// A line of the output is not a structured build message, or nests too
    /// deeply to read safely.
    Parse,
}

/// A compiler message as the structured stream carries it: severity, the
/// rendered text when the producer supplied one, and the error code when the
/// diagnostic has one.
#[derive(Debug, PartialEq)]
pub struct RawDiagnostic {
    pub level: Level,
    pub rendered: Option<String>,
    pub code: Option<String>,
}

/// The mathematical value of a raw diagnostic.
pub struct RawDiagnosticModel {
    pub level: Level,
    pub rendered: Option<Seq<char>>,
    pub code: Option<Seq<char>>,
}

impl View for RawDiagnostic {
    type V = RawDiagnosticModel;

    open spec fn view(&self) -> RawDiagnosticModel {
        RawDiagnosticModel {
            level: self.level,
            rendered: match self.rendered {
                Some(t) => Some(t@),
                None => None,
            },
            code: match self.code {
                Some(c) => Some(c@),
                None => None,
            },
        }
    }
}

/// One diagnostic of the collection: a write-once record with a severity, a
/// one-line summary, the remaining rendered lines, and the code when the
/// source supplied one.
#[derive(Debug, PartialEq)]
pub struct Record {
    pub level: Level,
    pub summary: String,
    pub detail_lines: Vec<String>,
    pub code: Option<String>,
}

/// The mathematical value of a record.
pub struct RecordModel {
    pub level: Level,
    pub summary: Seq<char>,
    pub detail_lines: Seq<Seq<char>>,
    pub code: Option<Seq<char>>,
}

impl View for Record {
    type V = RecordModel;

    open spec fn view(&self) -> RecordModel {
        RecordModel {
            level: self.level,
            summary: self.summary@,
            detail_lines: self.detail_lines@.map_values(|l: String| l@),
            code: match self.code {
                Some(c) => Some(c@),
                None => None,
            },
        }
    }
}

/// Whether a raw diagnostic is an actionable diagnostic rather than an
/// aggregate trailer: its level is known, and an error or warning carries a
/// code.
pub open spec fn spec_is_actionable(d: RawDiagnosticModel) -> bool {
    &&& d.level != Level::Unknown
    &&& (d.level == Level::Error || d.level == Level::Warning) ==> d.code is Some
}

/// Whether a raw diagnostic is kept in the collection.
pub fn is_actionable(d: &RawDiagnostic) -> (r: bool)
    ensures
        r == spec_is_actionable(d@),
{
    match d.level {
        Level::Unknown => false,
        Level::Error | Level::Warning => d.code.is_some(),
        _ => true,
    }
}

/// The record built from a raw diagnostic: the first rendered line becomes
/// the summary, the remaining rendered lines the details.
pub open spec fn spec_record_of(d: RawDiagnosticModel) -> RecordModel {
    let text = match d.rendered {
        Some(t) => t,
        None => Seq::<char>::empty(),
    };
    let ls = line_seq(text);
    RecordModel {
        level: d.level,
        summary: if ls.len() > 0 {
            ls[0]
        } else {
            Seq::<char>::empty()
        },
        detail_lines: if ls.len() > 0 {
            ls.drop_first()
        } else {
            Seq::<Seq<char>>::empty()
        },
        code: d.code,
    }
}

/// The collection built from a raw stream: the actionable diagnostics, as
/// records, in stream order.
pub open spec fn spec_collect(raws: Seq<RawDiagnosticModel>) -> Seq<RecordModel>
    decreases raws.len(),
{
    if raws.len() == 0 {
        seq![]
    } else {
        let prev = spec_collect(raws.drop_last());
        if spec_is_actionable(raws.last()) {
            prev.push(spec_record_of(raws.last()))
        } else {
            prev
        }
    }
}

/// Builds the record of one raw diagnostic.
pub fn build_record(d: &RawDiagnostic) -> (r: Record)
    ensures
        r@ == spec_record_of(d@),
{
    let text: &str = match &d.rendered {
        Some(t) => t.as_str(),
        None => "",
    };
    proof {
        reveal_strlit("");
        assert(""@ =~= Seq::<char>::empty());
    }
    let lines = crate::text::split_lines(text);
    let mut summary = String::new();
    let mut detail_lines: Vec<String> = Vec::new();
    if lines.len() > 0 {
        summary = lines[0].to_owned();
        let mut i: usize = 1;
        proof {
            assert(detail_lines@.map_values(|l: String| l@) =~= line_seq(text@).drop_first()
                .subrange(0, 0));
        }
        while i < lines.len()
            invariant
                1 <= i <= lines@.len(),
                lines@.map_values(|l: &str| l@) == line_seq(text@),
                detail_lines@.map_values(|l: String| l@) == line_seq(text@).drop_first().subrange(
                    0,
                    i - 1,
                ),
            decreases lines@.len() - i,
        {
            let line = lines[i].to_owned();
            proof {
                assert(detail_lines@.push(line).map_values(|l: String| l@) =~= detail_lines@
                    .map_values(|l: String| l@).push(line@));
                assert(line_seq(text@).drop_first().subrange(0, i - 1).push(line@) =~= line_seq(
                    text@,
                ).drop_first().subrange(0, i as int));
            }
            detail_lines.push(line);
            i = i + 1;
        }
        proof {
            assert(line_seq(text@).drop_first().subrange(0, i - 1) =~= line_seq(
                text@,
            ).drop_first());
        }
    } else {
        proof {
            assert(detail_lines@.map_values(|l: String| l@) =~= Seq::<Seq<char>>::empty());
        }
    }
    let code = match &d.code {
        Some(c) => Some(c.clone()),
        None => None,
    };
    Record { level: d.level, summary, detail_lines, code }
}

/// The record built from a free-text group: warnings and errors map straight
/// into the richer severity model, the block's first line becomes the
/// summary, its remaining lines the details; free-text groups carry no code.
pub open spec fn spec_record_of_group(g: crate::group::GroupModel) -> RecordModel {
    RecordModel {
        level: match g {
            crate::group::GroupModel::Warning(_) => Level::Warning,
            crate::group::GroupModel::Error(_) => Level::Error,
        },
        summary: if g.lines().len() > 0 {
            g.lines()[0]
        } else {
            Seq::<char>::empty()
        },
        detail_lines: if g.lines().len() > 0 {
            g.lines().drop_first()
        } else {
            Seq::<Seq<char>>::empty()
        },
        code: None,
    }
}

/// Builds the diagnostic collection from free-text groups, mapping the two
/// detected categories into the severity model; order is kept, and nothing
/// more is filtered — grouping has already dropped unclassifiable blocks.
pub fn records_from_groups(groups: &Vec<crate::group::Group<'_>>) -> (r: Vec<Record>)
    ensures
        r@.map_values(|rec: Record| rec@) == groups@.map_values(
            |g: crate::group::Group<'_>| spec_record_of_group(g@),
        ),
{
    let ghost gv = groups@.map_values(|g: crate::group::Group<'_>| spec_record_of_group(g@));
    let mut out: Vec<Record> = Vec::new();
    let mut i: usize = 0;
    proof {
        assert(out@.map_values(|rec: Record| rec@) =~= gv.subrange(0, 0));
    }
    while i < groups.len()
        invariant
            0 <= i <= groups@.len(),
            gv == groups@.map_values(|g: crate::group::Group<'_>| spec_record_of_group(g@)),
            out@.map_values(|rec: Record| rec@) == gv.subrange(0, i as int),
        decreases groups@.len() - i,
    {
        let g = &groups[i];
        let level = match g {
            crate::group::Group::Warning(_) => Level::Warning,
            crate::group::Group::Error(_) => Level::Error,
        };
        let lines = g.inner();
        let mut summary = String::new();
        let mut detail_lines: Vec<String> = Vec::new();
        let ghost lm = g@.lines();
        if lines.len() > 0 {
            summary = lines[0].to_owned();
            let mut k: usize = 1;
            proof {
                assert(detail_lines@.map_values(|l: String| l@) =~= lm.drop_first().subrange(0, 0));
            }
            while k < lines.len()
                invariant
                    1 <= k <= lines@.len(),
                    lines@.map_values(|l: &str| l@) == lm,
                    detail_lines@.map_values(|l: String| l@) == lm.drop_first().subrange(
                        0,
                        k - 1,
                    ),
                decreases lines@.len() - k,
            {
                let line = lines[k].to_owned();
                proof {
                    assert(detail_lines@.push(line).map_values(|l: String| l@) =~= detail_lines@
                        .map_values(|l: String| l@).push(line@));
                    assert(lm.drop_first().subrange(0, k - 1).push(line@) =~= lm.drop_first()
                        .subrange(0, k as int));
                }
                detail_lines.push(line);
                k = k + 1;
            }
            proof {
                assert(lm.drop_first().subrange(0, k - 1) =~= lm.drop_first());
            }
        } else {
            proof {
                assert(detail_lines@.map_values(|l: String| l@) =~= Seq::<Seq<char>>::empty());
            }
        }
        let rec = Record { level, summary, detail_lines, code: None };
        proof {
            assert(rec@ == spec_record_of_group(g@));
            assert(out@.push(rec).map_values(|x: Record| x@) =~= out@.map_values(
                |x: Record| x@,
            ).push(rec@));
            assert(gv.subrange(0, i as int).push(gv[i as int]) =~= gv.subrange(0, i + 1));
        }
        out.push(rec);
        i = i + 1;
    }
    proof {
        assert(gv.subrange(0, i as int) =~= gv);
    }
    out
}

/// Relies on cargo_metadata::Message::parse_stream and the iterator it
/// returns: the bytes are read line by line, each line is deserialised into a
/// build message, and the compiler messages among them carry the diagnostic
/// (level, rendered text, code). The iterator fails only when a line is not
/// valid UTF-8, and hands a line that is no structured message back as plain
/// text — a severity string beyond the known ones therefore fails its whole
/// line rather than being dropped; only `failure-note` reads as an unknown
/// level. Parsing reads nothing but the bytes, so the whole outcome is a
/// function of them. The reader switches serde_json's recursion guard off,
/// and deserialising buffers nested documents recursively, so a caller must
/// first bound the bytes' bracket nesting — hence the precondition.
#[verifier::external_body]
fn parse_message_stream(bytes: &[u8]) -> (r: Result<Vec<RawDiagnostic>, SourceError>)
    requires
        stream_depth_bounded(bytes@, DEPTH_LIMIT as int),
    ensures
        match r {
            Ok(v) => parse_outcome(bytes@) == Ok::<Seq<RawDiagnostic>, SourceError>(v@),
            Err(e) => parse_outcome(bytes@) == Err::<Seq<RawDiagnostic>, SourceError>(e) && (e
                == SourceError::Encoding || e == SourceError::Parse),
        },
{
    let mut out: Vec<RawDiagnostic> = Vec::new();
    for m in Message::parse_stream(bytes) {
        let d = match m {
            Ok(Message::CompilerMessage(c)) => c.message,
            Ok(Message::TextLine(_)) => return Err(SourceError::Parse),
            Ok(_) => continue, Err(_) => return Err(SourceError::Encoding),
        };
        let level = match d.level {
            DiagnosticLevel::Ice => Level::InternalCompilerError,
            DiagnosticLevel::Error => Level::Error, DiagnosticLevel::Warning => Level::Warning,
            DiagnosticLevel::Note => Level::Note, DiagnosticLevel::Help => Level::Help, _ => Level::Unknown,
        };
        out.push(RawDiagnostic { level, rendered: d.rendered, code: d.code.map(|k| k.code) });
    }
    Ok(out)
}

/// Builds the diagnostic collection from the raw bytes of a structured
/// build-check output stream: rejects a stream whose bracket nesting is too
/// deep to read safely, otherwise parses the stream and keeps the actionable
/// diagnostics, as records, in stream order. Success and failure are tied to
/// the bytes: within the nesting bound, the function returns `Ok` exactly
/// when reading the stream does, with exactly the collected records, and
/// otherwise the error kind that reading the stream gives.
pub fn diagnostics_from_output(bytes: &[u8]) -> (r: Result<Vec<Record>, SourceError>)
    ensures
        !stream_depth_bounded(bytes@, DEPTH_LIMIT as int) ==> r == Err::<
            Vec<Record>,
            SourceError,
        >(SourceError::Parse),
        stream_depth_bounded(bytes@, DEPTH_LIMIT as int) ==> match r {
            Ok(v) => parse_outcome(bytes@) matches Ok(raws) && v@.map_values(|rec: Record| rec@)
                == spec_collect(raws.map_values(|d: RawDiagnostic| d@)),
            Err(e) => parse_outcome(bytes@) == Err::<Seq<RawDiagnostic>, SourceError>(e) && (e
                == SourceError::Encoding || e == SourceError::Parse),
        },
{
    if !stream_depth_within(bytes) {
        return Err(SourceError::Parse);
    }
    match parse_message_stream(bytes) {
        Ok(raws) => Ok(build_collection(&raws)),
        Err(e) => Err(e),
    }
}

/// Builds the diagnostic collection from an already parsed raw stream: keeps
/// the actionable diagnostics, as records, in stream order.
pub fn build_collection(raws: &Vec<RawDiagnostic>) -> (r: Vec<Record>)
    ensures
        r@.map_values(|rec: Record| rec@) == spec_collect(
            raws@.map_values(|d: RawDiagnostic| d@),
        ),
{
    let ghost rv = raws@.map_values(|d: RawDiagnostic| d@);
    let mut out: Vec<Record> = Vec::new();
    let mut i: usize = 0;
    proof {
        assert(rv.subrange(0, 0) =~= Seq::<RawDiagnosticModel>::empty());
        assert(out@.map_values(|rec: Record| rec@) =~= spec_collect(rv.subrange(0, 0)));
    }
    while i < raws.len()
        invariant
            0 <= i <= raws@.len(),
            rv == raws@.map_values(|d: RawDiagnostic| d@),
            out@.map_values(|rec: Record| rec@) == spec_collect(rv.subrange(0, i as int)),
        decreases raws@.len() - i,
    {
        let d = &raws[i];
        proof {
            assert(rv.subrange(0, i + 1).drop_last() =~= rv.subrange(0, i as int));
            assert(rv.subrange(0, i + 1).last() == d@);
        }
        if is_actionable(d) {
            let rec = build_record(d);
            proof {
                assert(out@.push(rec).map_values(|x: Record| x@) =~= out@.map_values(
                    |x: Record| x@,
                ).push(rec@));
            }
            out.push(rec);
        }
        i = i + 1;
    }
    proof {
        assert(rv.subrange(0, i as int) =~= rv);
    }
    out
}

} // verus!
