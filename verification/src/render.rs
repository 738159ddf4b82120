//! Serialization of a parsed document to its JSON text.

use vstd::prelude::*;
use crate::lyrics::{DocModel, LineModel, LyricsDocument, ParseError, parse, sp_parse_lyrics};
use crate::numtext::{sp_dec_str, sp_pad_str, sp_trim_zeros, push_dec, push_pad, trim_zeros};
use crate::text::{chars_to_string, str_to_chars, append_chars, append_str_chars};

verus! {

/// The escaped form of one character inside a JSON string.
pub open spec fn sp_esc_char(c: char) -> Seq<char> {
    if c == '"' {
        seq!['\\', '"']
    } else if c == '\\' {
        seq!['\\', '\\']
    } else if c == '\n' {
        seq!['\\', 'n']
    } else if c == '\r' {
        seq!['\\', 'r']
    } else if c == '\t' {
        seq!['\\', 't']
    } else {
        seq![c]
    }
}

/// The JSON escaping of a string.
pub open spec fn sp_escape(s: Seq<char>) -> Seq<char>
    decreases s.len(),
{
    if s.len() == 0 {
        Seq::empty()
    } else {
        sp_escape(s.drop_last()) + sp_esc_char(s.last())
    }
}

/// The decimal rendering of a microsecond count as seconds: the integer
/// part, then a point and the fraction with trailing zeros removed, the
/// point omitted when the fraction is zero.
pub open spec fn sp_fmt_micros(m: int) -> Seq<char> {
    let ip = m / 1000000;
    let fr = m % 1000000;
    if fr == 0 {
        sp_dec_str(ip)
    } else {
        sp_dec_str(ip) + seq!['.'] + sp_trim_zeros(sp_pad_str(fr, 6))
    }
}

/// The JSON object of one line.
pub open spec fn sp_line_json(l: LineModel) -> Seq<char> {
    "{\"id\":\""@ + sp_escape(l.id) + "\",\"line\":\""@ + sp_escape(l.text) + "\",\"startTime\":"@
        + sp_fmt_micros(l.start) + ",\"endTime\":"@ + sp_fmt_micros(l.end) + "}"@
}

/// The comma-separated line objects from position `i` on.
pub open spec fn sp_lines_json_from(ls: Seq<LineModel>, i: int) -> Seq<char>
    decreases ls.len() - i,
{
    if 0 <= i < ls.len() {
        (if i > 0 {
            seq![',']
        } else {
            Seq::empty()
        }) + sp_line_json(ls[i]) + sp_lines_json_from(ls, i + 1)
    } else {
        Seq::empty()
    }
}

/// The comma-separated quoted songwriter names from position `i` on.
pub open spec fn sp_strs_json_from(ss: Seq<Seq<char>>, i: int) -> Seq<char>
    decreases ss.len() - i,
{
    if 0 <= i < ss.len() {
        (if i > 0 {
            seq![',']
        } else {
            Seq::empty()
        }) + seq!['"'] + sp_escape(ss[i]) + seq!['"'] + sp_strs_json_from(ss, i + 1)
    } else {
        Seq::empty()
    }
}

/// The JSON text of a whole document.
pub open spec fn sp_serialize(d: DocModel) -> Seq<char> {
    "{\"lyrics\":["@ + sp_lines_json_from(d.lines, 0) + "],\"leadingSilence\":"@ + sp_fmt_micros(
        d.leading_silence,
    ) + ",\"songwriters\":["@ + sp_strs_json_from(d.songwriters, 0) + "]}"@
}

/// Appends the JSON escaping of `s`.
fn escape_into(out: &mut Vec<char>, s: &str)
    ensures
        final(out)@ == old(out)@ + sp_escape(s@),
{
    let cs = str_to_chars(s);
    let mut i: usize = 0;
    while i < cs.len()
        invariant
            i <= cs@.len(),
            cs@ == s@,
            out@ == old(out)@ + sp_escape(cs@.subrange(0, i as int)),
        decreases cs@.len() - i,
    {
        let c = cs[i];
        if c == '"' {
            out.push('\\');
            out.push('"');
        } else if c == '\\' {
            out.push('\\');
            out.push('\\');
        } else if c == '\n' {
            out.push('\\');
            out.push('n');
        } else if c == '\r' {
            out.push('\\');
            out.push('r');
        } else if c == '\t' {
            out.push('\\');
            out.push('t');
        } else {
            out.push(c);
        }
        i = i + 1;
        proof {
            assert(cs@.subrange(0, i as int).drop_last() =~= cs@.subrange(0, i - 1));
            assert(cs@.subrange(0, i as int).last() == cs@[i - 1]);
            assert(out@ =~= old(out)@ + (sp_escape(cs@.subrange(0, i - 1)) + sp_esc_char(
                cs@[i - 1],
            )));
        }
    }
    proof {
        assert(cs@.subrange(0, cs@.len() as int) =~= s@);
    }
}

/// Appends the seconds rendering of a microsecond count.
fn fmt_micros_into(out: &mut Vec<char>, m: u64)
    ensures
        final(out)@ == old(out)@ + sp_fmt_micros(m as int),
{
    let ip = m / 1000000;
    let fr = m % 1000000;
    push_dec(ip, out);
    if fr != 0 {
        out.push('.');
        let mut f: Vec<char> = Vec::new();
        push_pad(fr, 6, &mut f);
        proof {
            assert(Seq::<char>::empty() + sp_pad_str(fr as int, 6) =~= sp_pad_str(fr as int, 6));
        }
        trim_zeros(&mut f);
        append_chars(out, &f);
        proof {
            assert(out@ =~= old(out)@ + sp_fmt_micros(m as int));
        }
    }
}

/// Serializes a document: the exact JSON text that `sp_serialize` gives its
/// model.
pub fn serialize(doc: &LyricsDocument) -> (r: String)
    ensures
        r@ == sp_serialize(doc.model()),
{
    let ghost dm = doc.model();
    let mut out: Vec<char> = Vec::new();
    append_str_chars(&mut out, "{\"lyrics\":[");
    let ghost head = "{\"lyrics\":["@;
    proof {
        assert(Seq::<char>::empty() + head =~= head);
    }
    let mut i: usize = 0;
    while i < doc.lines.len()
        invariant
            i <= doc.lines@.len(),
            dm == doc.model(),
            out@ + sp_lines_json_from(dm.lines, i as int) == head + sp_lines_json_from(dm.lines, 0),
        decreases doc.lines@.len() - i,
    {
        proof {
            assert(dm.lines[i as int] == doc.lines@[i as int].model());
        }
        let ghost pre = out@;
        if i > 0 {
            out.push(',');
        }
        let l = &doc.lines[i];
        append_str_chars(&mut out, "{\"id\":\"");
        escape_into(&mut out, l.id.as_str());
        append_str_chars(&mut out, "\",\"line\":\"");
        escape_into(&mut out, l.text.as_str());
        append_str_chars(&mut out, "\",\"startTime\":");
        fmt_micros_into(&mut out, l.start_time_micros);
        append_str_chars(&mut out, ",\"endTime\":");
        fmt_micros_into(&mut out, l.end_time_micros);
        append_str_chars(&mut out, "}");
        proof {
            assert(out@ =~= pre + ((if i > 0 {
                seq![',']
            } else {
                Seq::<char>::empty()
            }) + sp_line_json(dm.lines[i as int])));
            assert(pre + ((if i > 0 {
                seq![',']
            } else {
                Seq::<char>::empty()
            }) + sp_line_json(dm.lines[i as int])) + sp_lines_json_from(dm.lines, i + 1) =~= pre + (
            (if i > 0 {
                seq![',']
            } else {
                Seq::<char>::empty()
            }) + sp_line_json(dm.lines[i as int]) + sp_lines_json_from(dm.lines, i + 1)));
        }
        i = i + 1;
    }
    proof {
        assert(out@ + Seq::<char>::empty() =~= out@);
    }
    append_str_chars(&mut out, "],\"leadingSilence\":");
    fmt_micros_into(&mut out, doc.leading_silence_micros);
    append_str_chars(&mut out, ",\"songwriters\":[");
    let ghost head2 = out@;
    let mut k: usize = 0;
    while k < doc.songwriters.len()
        invariant
            k <= doc.songwriters@.len(),
            dm == doc.model(),
            out@ + sp_strs_json_from(dm.songwriters, k as int) == head2 + sp_strs_json_from(
                dm.songwriters,
                0,
            ),
        decreases doc.songwriters@.len() - k,
    {
        proof {
            assert(dm.songwriters[k as int] == doc.songwriters@[k as int]@);
        }
        let ghost pre = out@;
        if k > 0 {
            out.push(',');
        }
        out.push('"');
        escape_into(&mut out, doc.songwriters[k].as_str());
        out.push('"');
        proof {
            assert(out@ =~= pre + ((if k > 0 {
                seq![',']
            } else {
                Seq::<char>::empty()
            }) + seq!['"'] + sp_escape(dm.songwriters[k as int]) + seq!['"']));
            assert(pre + ((if k > 0 {
                seq![',']
            } else {
                Seq::<char>::empty()
            }) + seq!['"'] + sp_escape(dm.songwriters[k as int]) + seq!['"']) + sp_strs_json_from(
                dm.songwriters,
                k + 1,
            ) =~= pre + ((if k > 0 {
                seq![',']
            } else {
                Seq::<char>::empty()
            }) + seq!['"'] + sp_escape(dm.songwriters[k as int]) + seq!['"'] + sp_strs_json_from(
                dm.songwriters,
                k + 1,
            )));
        }
        k = k + 1;
    }
    proof {
        assert(out@ + Seq::<char>::empty() =~= out@);
    }
    append_str_chars(&mut out, "]}");
    proof {
        assert(out@ =~= sp_serialize(dm));
    }
    chars_to_string(&out)
}

/// Parses a document and serializes the result: the one-call boundary that
/// fails whole on any parse error.
pub fn parse_lyrics_xml(raw_text: &str) -> (r: Result<String, ParseError>)
    ensures
        (match r {
            Ok(s) => sp_parse_lyrics(raw_text@) matches Ok(d) && s@ == sp_serialize(d),
            Err(e) => sp_parse_lyrics(raw_text@) == Err::<DocModel, _>(e.model()),
        }),
{
    match parse(raw_text) {
        Ok(doc) => Ok(serialize(&doc)),
        Err(e) => Err(e),
    }
}

} // verus!
