//! Canonical JSON text for a formatted record: the exact bytes handed to
//! the sink.  Keys come in a fixed order — the required keys first, then
//! the conditional blocks, then the custom fields in key order — so equal
//! documents always render to identical text.

use crate::decimal::decimal_digits;
use crate::document::{Document, DocumentModel, LocationModel, ServiceContextModel};
use crate::event::EventModel;
use crate::format::{spec_format, FormatOptions};
use crate::service::ServiceModel;
use crate::severity::spec_token_str;
use vstd::prelude::*;
use vstd::string::{StrSliceExecFns, StringExecFns};

verus! {

/// The digit characters of a hexadecimal value, lowercase.
pub open spec fn hex_char(d: nat) -> char
    recommends
        d < 16,
{
    if d == 0 {
        '0'
    } else if d == 1 {
        '1'
    } else if d == 2 {
        '2'
    } else if d == 3 {
        '3'
    } else if d == 4 {
        '4'
    } else if d == 5 {
        '5'
    } else if d == 6 {
        '6'
    } else if d == 7 {
        '7'
    } else if d == 8 {
        '8'
    } else if d == 9 {
        '9'
    } else if d == 10 {
        'a'
    } else if d == 11 {
        'b'
    } else if d == 12 {
        'c'
    } else if d == 13 {
        'd'
    } else if d == 14 {
        'e'
    } else {
        'f'
    }
}

/// The JSON escape of one character: the two-character escapes for the
/// quote, the backslash and the common control characters, a `\u00XX`
/// escape for the remaining control characters, and the character itself
/// for everything else.
pub open spec fn spec_escape_char(c: char) -> Seq<char> {
    if c == '"' {
        seq!['\\', '"']
    } else if c == '\\' {
        seq!['\\', '\\']
    } else if c == '\n' {
        seq!['\\', 'n']
    } else if c == '\r' {
        seq!['\\', 'r']
    } else if c == '\t' {
        seq!['\\', 't']
    } else if (c as u32) < 0x20 {
        seq!['\\', 'u', '0', '0', hex_char(((c as u32) / 16) as nat), hex_char(
            ((c as u32) % 16) as nat,
        )]
    } else {
        seq![c]
    }
}

/// The JSON escape of a whole text.
pub open spec fn spec_escape(s: Seq<char>) -> Seq<char>
    decreases s.len(),
{
    if s.len() == 0 {
        Seq::empty()
    } else {
        spec_escape(s.drop_last()) + spec_escape_char(s.last())
    }
}

/// A JSON string literal: the escaped text between quotes.
pub open spec fn spec_json_string(s: Seq<char>) -> Seq<char> {
    seq!['"'] + spec_escape(s) + seq!['"']
}

/// A nullable JSON string: `null` when the value is absent.
pub open spec fn spec_json_opt_string(s: Option<Seq<char>>) -> Seq<char> {
    match s {
        Some(s) => spec_json_string(s),
        None => "null"@,
    }
}

/// A nullable JSON number: `null` when the value is absent.
pub open spec fn spec_json_opt_number(n: Option<u32>) -> Seq<char> {
    match n {
        Some(n) => decimal_digits(n as nat),
        None => "null"@,
    }
}

/// The `serviceContext` member with its leading comma, or nothing.
pub open spec fn spec_context_member(c: Option<ServiceContextModel>) -> Seq<char> {
    match c {
        Some(c) => ",\"serviceContext\":{\"service\":"@ + spec_json_string(c.service)
            + ",\"version\":"@ + spec_json_string(c.version) + "}"@,
        None => Seq::empty(),
    }
}

/// The `reportLocation` member with its leading comma, or nothing.
pub open spec fn spec_location_member(l: Option<LocationModel>) -> Seq<char> {
    match l {
        Some(l) => ",\"reportLocation\":{\"filePath\":"@ + spec_json_opt_string(l.file_path)
            + ",\"modulePath\":"@ + spec_json_opt_string(l.module) + ",\"lineNumber\":"@
            + spec_json_opt_number(l.line_number) + "}"@,
        None => Seq::empty(),
    }
}

/// The custom members, each with its leading comma, in key order.
pub open spec fn spec_custom_members(custom: Seq<(Seq<char>, Seq<char>)>) -> Seq<char>
    decreases custom.len(),
{
    if custom.len() == 0 {
        Seq::empty()
    } else {
        spec_custom_members(custom.drop_last()) + ","@ + spec_json_string(custom.last().0) + ":"@
            + spec_json_string(custom.last().1)
    }
}

/// What `document_to_json` returns: the document's canonical JSON text.
pub open spec fn spec_document_json(d: DocumentModel) -> Seq<char> {
    "{\"eventTime\":"@ + spec_json_string(d.event_time) + ",\"severity\":"@ + spec_json_string(
        spec_token_str(d.severity),
    ) + ",\"message\":"@ + spec_json_string(d.message) + spec_context_member(d.service_context)
        + spec_location_member(d.report_location) + spec_custom_members(d.custom) + "}"@
}

fn hex_str(d: u32) -> (r: &'static str)
    requires
        d < 16,
    ensures
        r@ =~= seq![hex_char(d as nat)],
{
    proof {
        reveal_strlit("0");
        reveal_strlit("1");
        reveal_strlit("2");
        reveal_strlit("3");
        reveal_strlit("4");
        reveal_strlit("5");
        reveal_strlit("6");
        reveal_strlit("7");
        reveal_strlit("8");
        reveal_strlit("9");
        reveal_strlit("a");
        reveal_strlit("b");
        reveal_strlit("c");
        reveal_strlit("d");
        reveal_strlit("e");
        reveal_strlit("f");
    }
    match d {
        0 => "0",
        1 => "1",
        2 => "2",
        3 => "3",
        4 => "4",
        5 => "5",
        6 => "6",
        7 => "7",
        8 => "8",
        9 => "9",
        10 => "a",
        11 => "b",
        12 => "c",
        13 => "d",
        14 => "e",
        _ => "f",
    }
}

/// Escaping one more character extends the escape of what came before it.
proof fn lemma_escape_step(s: Seq<char>, i: int)
    requires
        0 <= i < s.len(),
    ensures
        spec_escape(s.take(i + 1)) == spec_escape(s.take(i)) + spec_escape_char(s[i]),
{
    let s1 = s.take(i + 1);
    assert(s1.drop_last() =~= s.take(i));
    assert(s1.last() == s[i]);
}

fn json_escape(s: &str) -> (r: String)
    ensures
        r@ == spec_escape(s@),
{
    let n = s.unicode_len();
    let mut out = String::new();
    let mut i: usize = 0;
    proof {
        assert(s@.take(0) =~= Seq::<char>::empty());
    }
    while i < n
        invariant
            i <= n,
            n == s@.len(),
            out@ == spec_escape(s@.take(i as int)),
        decreases n - i,
    {
        proof {
            lemma_escape_step(s@, i as int);
        }
        let ghost before = out@;
        let c = s.get_char(i);
        if c == '"' {
            out.append("\\\"");
            proof {
                reveal_strlit("\\\"");
                assert(out@ =~= before + spec_escape_char(s@[i as int]));
            }
        } else if c == '\\' {
            out.append("\\\\");
            proof {
                reveal_strlit("\\\\");
                assert(out@ =~= before + spec_escape_char(s@[i as int]));
            }
        } else if c == '\n' {
            out.append("\\n");
            proof {
                reveal_strlit("\\n");
                assert(out@ =~= before + spec_escape_char(s@[i as int]));
            }
        } else if c == '\r' {
            out.append("\\r");
            proof {
                reveal_strlit("\\r");
                assert(out@ =~= before + spec_escape_char(s@[i as int]));
            }
        } else if c == '\t' {
            out.append("\\t");
            proof {
                reveal_strlit("\\t");
                assert(out@ =~= before + spec_escape_char(s@[i as int]));
            }
        } else if (c as u32) < 0x20 {
            out.append("\\u00");
            out.append(hex_str((c as u32) / 16));
            out.append(hex_str((c as u32) % 16));
            proof {
                reveal_strlit("\\u00");
                assert(out@ =~= before + spec_escape_char(s@[i as int]));
            }
        } else {
            let one = s.substring_char(i, i + 1);
            out.append(one);
            proof {
                assert(one@ =~= seq![s@[i as int]]);
                assert(out@ =~= before + spec_escape_char(s@[i as int]));
            }
        }
        proof {
            assert(out@ == spec_escape(s@.take(i + 1)));
        }
        i = i + 1;
    }
    proof {
        assert(s@.take(n as int) =~= s@);
    }
    out
}

fn append_json_string(out: &mut String, s: &str)
    ensures
        final(out)@ == old(out)@ + spec_json_string(s@),
{
    proof {
        reveal_strlit("\"");
    }
    out.append("\"");
    let e = json_escape(s);
    out.append(e.as_str());
    out.append("\"");
    proof {
        assert(out@ =~= old(out)@ + spec_json_string(s@));
    }
}

fn append_json_opt_string(out: &mut String, s: &Option<String>)
    ensures
        final(out)@ == old(out)@ + spec_json_opt_string(s.deep_view()),
{
    match s {
        Some(s) => append_json_string(out, s.as_str()),
        None => out.append("null"),
    }
}

/// Renders one document as its canonical JSON text.  Equal documents give
/// byte-identical text: with a fixed clock reading, formatting and
/// rendering the same event twice yields the same bytes.
#[verifier::rlimit(30)]
pub fn document_to_json(doc: &Document) -> (r: String)
    ensures
        r@ == spec_document_json(doc@),
{
    let mut out = String::from_str("{\"eventTime\":");
    append_json_string(&mut out, doc.event_time.as_str());
    out.append(",\"severity\":");
    append_json_string(&mut out, doc.severity.as_str());
    out.append(",\"message\":");
    append_json_string(&mut out, doc.message.as_str());
    match &doc.service_context {
        Some(c) => {
            let ghost before = out@;
            out.append(",\"serviceContext\":{\"service\":");
            append_json_string(&mut out, c.service.as_str());
            out.append(",\"version\":");
            append_json_string(&mut out, c.version.as_str());
            out.append("}");
            proof {
                assert(out@ =~= before + spec_context_member(doc@.service_context));
            }
        },
        None => {
            proof {
                assert(spec_context_member(doc@.service_context) =~= Seq::<char>::empty());
            }
        },
    }
    match &doc.report_location {
        Some(l) => {
            let ghost before = out@;
            out.append(",\"reportLocation\":{\"filePath\":");
            append_json_opt_string(&mut out, &l.file_path);
            out.append(",\"modulePath\":");
            append_json_opt_string(&mut out, &l.module);
            out.append(",\"lineNumber\":");
            match l.line_number {
                Some(n) => {
                    let digits = crate::decimal::u64_to_decimal(n as u64);
                    out.append(digits.as_str());
                },
                None => out.append("null"),
            }
            out.append("}");
            proof {
                assert(out@ =~= before + spec_location_member(doc@.report_location));
            }
        },
        None => {
            proof {
                assert(spec_location_member(doc@.report_location) =~= Seq::<char>::empty());
            }
        },
    }
    let ghost cm = doc@.custom;
    let ghost body = out@;
    let n = doc.custom.len();
    let mut i: usize = 0;
    proof {
        assert(cm.take(0) =~= Seq::<(Seq<char>, Seq<char>)>::empty());
        assert(out@ =~= body + spec_custom_members(cm.take(0)));
    }
    while i < n
        invariant
            i <= n,
            n == doc.custom@.len(),
            n == cm.len(),
            cm == doc@.custom,
            forall|j: int|
                0 <= j < n ==> (#[trigger] doc.custom@[j]).0@ == cm[j].0 && doc.custom@[j].1@
                    == cm[j].1,
            out@ == body + spec_custom_members(cm.take(i as int)),
        decreases n - i,
    {
        proof {
            let s1 = cm.take(i + 1);
            assert(s1.drop_last() =~= cm.take(i as int));
            assert(s1.last() == cm[i as int]);
        }
        let ghost before = out@;
        out.append(",");
        let pair = &doc.custom[i];
        append_json_string(&mut out, pair.0.as_str());
        out.append(":");
        append_json_string(&mut out, pair.1.as_str());
        proof {
            assert(out@ =~= body + spec_custom_members(cm.take(i + 1)));
        }
        i = i + 1;
    }
    proof {
        assert(cm.take(n as int) =~= cm);
    }
    out.append("}");
    proof {
        assert(out@ =~= spec_document_json(doc@));
    }
    out
}

/// Law: formatting and rendering are deterministic end to end.  With the
/// same event, identity, options and injected clock reading, two formatted
/// documents render to byte-identical JSON text.
pub proof fn lemma_output_deterministic(
    e: EventModel,
    svc: Option<ServiceModel>,
    opts: FormatOptions,
    time: Seq<char>,
    d1: DocumentModel,
    d2: DocumentModel,
)
    requires
        d1 == spec_format(e, svc, opts, time),
        d2 == spec_format(e, svc, opts, time),
    ensures
        spec_document_json(d1) == spec_document_json(d2),
{
}

} // verus!
