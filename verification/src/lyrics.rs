//! The lyrics document parser.
//!
//! `parse` turns a timed-text markup document into an ordered list of lyric
//! lines with identifiers and start/end offsets in microseconds, a leading
//! silence, and the songwriter credits. `sp_parse_lyrics` is the
//! specification: `parse` returns exactly what it maps the input to.

use vstd::prelude::*;
use vstd::string::StringExecFns;
use crate::markup::{Elem, Element, sp_document, parse_document, copy_range, eq_range};
use crate::timing::{sp_parse_time, parse_time, sp_parse_dec, parse_dec};
use crate::numtext::sp_dec_str;
use crate::text::{chars_to_string, str_to_chars, append_chars};

verus! {

/// The model of one output line.
#[verifier::ext_equal]
pub struct LineModel {
    pub id: Seq<char>,
    pub text: Seq<char>,
    pub start: int,
    pub end: int,
}

/// The model of a parsed document.
#[verifier::ext_equal]
pub struct DocModel {
    pub lines: Seq<LineModel>,
    pub leading_silence: int,
    pub songwriters: Seq<Seq<char>>,
}

/// The model of a parse failure.
#[verifier::ext_equal]
pub enum ErrModel {
    Malformed,
    MissingSection(Seq<char>),
    MissingAttribute(Seq<char>),
    MissingText,
    InvalidTimeFormat,
    InvalidNumber,
}

/// Why a document was rejected.
#[derive(Debug, Clone, PartialEq, Eq)]
pub enum ParseError {
    /// The text is not well-formed markup.
    Malformed,
    /// A required structural element is absent; the payload names it.
    MissingSection(String),
    /// A line lacks a timing attribute; the payload names it.
    MissingAttribute(String),
    /// A songwriter entry has no text content.
    MissingText,
    /// A timing attribute's seconds part is not a decimal number.
    InvalidTimeFormat,
    /// The leading-silence attribute is present but not a decimal number.
    InvalidNumber,
}

impl ParseError {
    /// The model of this failure.
    pub open spec fn model(self) -> ErrModel {
        match self {
            ParseError::Malformed => ErrModel::Malformed,
            ParseError::MissingSection(s) => ErrModel::MissingSection(s@),
            ParseError::MissingAttribute(s) => ErrModel::MissingAttribute(s@),
            ParseError::MissingText => ErrModel::MissingText,
            ParseError::InvalidTimeFormat => ErrModel::InvalidTimeFormat,
            ParseError::InvalidNumber => ErrModel::InvalidNumber,
        }
    }
}

/// One lyric line: identifier, display text, and offsets in microseconds.
#[derive(Debug, Clone, PartialEq, Eq)]
pub struct LyricLine {
    pub id: String,
    pub text: String,
    pub start_time_micros: u64,
    pub end_time_micros: u64,
}

impl LyricLine {
    /// The model of this line.
    pub open spec fn model(self) -> LineModel {
        LineModel {
            id: self.id@,
            text: self.text@,
            start: self.start_time_micros as int,
            end: self.end_time_micros as int,
        }
    }
}

/// A parsed lyrics document.
#[derive(Debug, Clone, PartialEq, Eq)]
pub struct LyricsDocument {
    pub lines: Vec<LyricLine>,
    pub leading_silence_micros: u64,
    pub songwriters: Vec<String>,
}

/// The model of a list of lyric lines.
pub open spec fn lines_model(a: Seq<LyricLine>) -> Seq<LineModel> {
    Seq::new(a.len(), |k: int| a[k].model())
}

/// The model of a list of strings.
pub open spec fn strs_model(a: Seq<String>) -> Seq<Seq<char>> {
    Seq::new(a.len(), |k: int| a[k]@)
}

impl LyricsDocument {
    /// The model of this document.
    pub open spec fn model(self) -> DocModel {
        DocModel {
            lines: lines_model(self.lines@),
            leading_silence: self.leading_silence_micros as int,
            songwriters: strs_model(self.songwriters@),
        }
    }
}

/// The identifier given to the line at position `k`.
pub open spec fn sp_line_id(k: int) -> Seq<char> {
    "line-"@ + sp_dec_str(k)
}

/// The first child of `e` with the given tag, at or after position `i`.
pub open spec fn sp_first_child_from(e: Elem, tag: Seq<char>, i: int) -> Option<Elem>
    decreases e.children.len() - i,
{
    if 0 <= i < e.children.len() {
        if e.children[i].tag == tag {
            Some(e.children[i])
        } else {
            sp_first_child_from(e, tag, i + 1)
        }
    } else {
        None
    }
}

/// The first child of `e` with the given tag.
pub open spec fn sp_first_child(e: Elem, tag: Seq<char>) -> Option<Elem> {
    sp_first_child_from(e, tag, 0)
}

/// The value of the first attribute of `e` with the given name, at or after
/// position `i`.
pub open spec fn sp_attr_from(e: Elem, name: Seq<char>, i: int) -> Option<Seq<char>>
    decreases e.attrs.len() - i,
{
    if 0 <= i < e.attrs.len() {
        if e.attrs[i].0 == name {
            Some(e.attrs[i].1)
        } else {
            sp_attr_from(e, name, i + 1)
        }
    } else {
        None
    }
}

/// The value of the first attribute of `e` with the given name.
pub open spec fn sp_attr(e: Elem, name: Seq<char>) -> Option<Seq<char>> {
    sp_attr_from(e, name, 0)
}

/// The text assembled from the word children of `p` at or after position
/// `i`: each word child with text contributes its text and one space.
pub open spec fn sp_words_from(p: Elem, i: int) -> Seq<char>
    decreases p.children.len() - i,
{
    if 0 <= i < p.children.len() {
        let c = p.children[i];
        let rest = sp_words_from(p, i + 1);
        if c.tag == "span"@ && c.text.len() > 0 {
            c.text + seq![' '] + rest
        } else {
            rest
        }
    } else {
        Seq::empty()
    }
}

/// The display text of a line node: its direct text if it has any, else the
/// concatenation of its word children.
pub open spec fn sp_line_text(p: Elem) -> Seq<char> {
    if p.text.len() > 0 {
        p.text
    } else {
        sp_words_from(p, 0)
    }
}

/// The text and the two offsets of a line node.
pub open spec fn sp_line(p: Elem) -> Result<(Seq<char>, int, int), ErrModel> {
    match sp_attr(p, "begin"@) {
        None => Err(ErrModel::MissingAttribute("begin"@)),
        Some(bv) => match sp_parse_time(bv) {
            None => Err(ErrModel::InvalidTimeFormat),
            Some(b) => match sp_attr(p, "end"@) {
                None => Err(ErrModel::MissingAttribute("end"@)),
                Some(ev) => match sp_parse_time(ev) {
                    None => Err(ErrModel::InvalidTimeFormat),
                    Some(en) => Ok((sp_line_text(p), b, en)),
                },
            },
        },
    }
}

/// Prepends an already-extracted prefix to a line-extraction result.
pub open spec fn ok_prepend_lines(
    pre: Seq<(Seq<char>, int, int)>,
    r: Result<Seq<(Seq<char>, int, int)>, ErrModel>,
) -> Result<Seq<(Seq<char>, int, int)>, ErrModel> {
    match r {
        Ok(s) => Ok(pre + s),
        Err(e) => Err(e),
    }
}

/// Prepends an already-extracted prefix to a songwriter-extraction result.
pub open spec fn ok_prepend_strs(pre: Seq<Seq<char>>, r: Result<Seq<Seq<char>>, ErrModel>) -> Result<
    Seq<Seq<char>>,
    ErrModel,
> {
    match r {
        Ok(s) => Ok(pre + s),
        Err(e) => Err(e),
    }
}

/// The lines of the line nodes of segment `d`, from position `i` on.
pub open spec fn sp_div_lines_from(d: Elem, i: int) -> Result<Seq<(Seq<char>, int, int)>, ErrModel>
    decreases d.children.len() - i,
{
    if 0 <= i < d.children.len() {
        let c = d.children[i];
        if c.tag == "p"@ {
            match sp_line(c) {
                Err(e) => Err(e),
                Ok(l) => match sp_div_lines_from(d, i + 1) {
                    Ok(rest) => Ok(seq![l] + rest),
                    Err(e) => Err(e),
                },
            }
        } else {
            sp_div_lines_from(d, i + 1)
        }
    } else {
        Ok(Seq::empty())
    }
}

/// The lines of all segment nodes of the body, from position `i` on, in
/// segment order.
pub open spec fn sp_body_lines_from(b: Elem, i: int) -> Result<Seq<(Seq<char>, int, int)>, ErrModel>
    decreases b.children.len() - i,
{
    if 0 <= i < b.children.len() {
        let c = b.children[i];
        if c.tag == "div"@ {
            match sp_div_lines_from(c, 0) {
                Err(e) => Err(e),
                Ok(ls) => match sp_body_lines_from(b, i + 1) {
                    Ok(rest) => Ok(ls + rest),
                    Err(e) => Err(e),
                },
            }
        } else {
            sp_body_lines_from(b, i + 1)
        }
    } else {
        Ok(Seq::empty())
    }
}

/// The songwriter names read from the children of the songwriters node,
/// from position `i` on; a child with no text is a failure.
pub open spec fn sp_songwriters_from(sw: Elem, i: int) -> Result<Seq<Seq<char>>, ErrModel>
    decreases sw.children.len() - i,
{
    if 0 <= i < sw.children.len() {
        let c = sw.children[i];
        if c.text.len() == 0 {
            Err(ErrModel::MissingText)
        } else {
            match sp_songwriters_from(sw, i + 1) {
                Ok(rest) => Ok(seq![c.text] + rest),
                Err(e) => Err(e),
            }
        }
    } else {
        Ok(Seq::empty())
    }
}

/// The iTunes-metadata node: the first child of the metadata section of the
/// head section.
pub open spec fn sp_itunes(root: Elem) -> Result<Elem, ErrModel> {
    match sp_first_child(root, "head"@) {
        None => Err(ErrModel::MissingSection("head"@)),
        Some(h) => match sp_first_child(h, "metadata"@) {
            None => Err(ErrModel::MissingSection("metadata"@)),
            Some(md) => if md.children.len() == 0 {
                Err(ErrModel::MissingSection("itunes-metadata"@))
            } else {
                Ok(md.children[0])
            },
        },
    }
}

/// The leading silence of the iTunes-metadata node: zero when the attribute
/// is absent, a failure when present but not a decimal number.
pub open spec fn sp_silence(it: Elem) -> Result<int, ErrModel> {
    match sp_attr(it, "leadingSilence"@) {
        None => Ok(0),
        Some(v) => match sp_parse_dec(v) {
            None => Err(ErrModel::InvalidNumber),
            Some(x) => Ok(x),
        },
    }
}

/// Gives each extracted line its positional identifier.
pub open spec fn with_ids(ls: Seq<(Seq<char>, int, int)>) -> Seq<LineModel> {
    ls.map(
        |k: int, l: (Seq<char>, int, int)|
            LineModel { id: sp_line_id(k), text: l.0, start: l.1, end: l.2 },
    )
}

/// What `parse` returns on an input: the document is parsed as markup, the
/// body and head sections are located, then the songwriters, the lines of
/// every segment in document order, and the leading silence.
pub open spec fn sp_parse_lyrics(s: Seq<char>) -> Result<DocModel, ErrModel> {
    match sp_document(s) {
        None => Err(ErrModel::Malformed),
        Some(root) => match sp_first_child(root, "body"@) {
            None => Err(ErrModel::MissingSection("body"@)),
            Some(body) => match sp_itunes(root) {
                Err(e) => Err(e),
                Ok(it) => match (if it.children.len() > 0 {
                    sp_songwriters_from(it.children[0], 0)
                } else {
                    Ok(Seq::empty())
                }) {
                    Err(e) => Err(e),
                    Ok(sw) => match sp_body_lines_from(body, 0) {
                        Err(e) => Err(e),
                        Ok(ls) => match sp_silence(it) {
                            Err(e) => Err(e),
                            Ok(sil) => Ok(
                                DocModel {
                                    lines: with_ids(ls),
                                    leading_silence: sil,
                                    songwriters: sw,
                                },
                            ),
                        },
                    },
                },
            },
        },
    }
}

/// Finds the first child with the given tag; mirrors `sp_first_child`.
fn first_child<'a>(e: &'a Element, tag: &Vec<char>) -> (r: Option<&'a Element>)
    ensures
        (match r {
            Some(c) => Some(c.model()),
            None => None::<Elem>,
        }) == sp_first_child(e.model(), tag@),
{
    let mut i: usize = 0;
    while i < e.children.len()
        invariant
            i <= e.children@.len(),
            sp_first_child_from(e.model(), tag@, 0) == sp_first_child_from(
                e.model(),
                tag@,
                i as int,
            ),
        decreases e.children@.len() - i,
    {
        proof {
            assert(e.model().children[i as int] == e.children@[i as int].model());
        }
        let c = &e.children[i];
        let tlen = c.tag.len();
        if eq_range(&c.tag, 0, tlen, tag) {
            proof {
                assert(c.tag@.subrange(0, c.tag@.len() as int) =~= c.tag@);
            }
            return Some(c);
        }
        proof {
            assert(c.tag@.subrange(0, c.tag@.len() as int) =~= c.tag@);
        }
        i = i + 1;
    }
    None
}

/// Finds the first attribute with the given name; mirrors `sp_attr`.
fn attr_of<'a>(e: &'a Element, name: &Vec<char>) -> (r: Option<&'a Vec<char>>)
    ensures
        (match r {
            Some(v) => Some(v@),
            None => None::<Seq<char>>,
        }) == sp_attr(e.model(), name@),
{
    let mut i: usize = 0;
    while i < e.attrs.len()
        invariant
            i <= e.attrs@.len(),
            sp_attr_from(e.model(), name@, 0) == sp_attr_from(e.model(), name@, i as int),
        decreases e.attrs@.len() - i,
    {
        proof {
            assert(e.model().attrs[i as int] == (e.attrs@[i as int].0@, e.attrs@[i as int].1@));
        }
        let nlen = e.attrs[i].0.len();
        if eq_range(&e.attrs[i].0, 0, nlen, name) {
            proof {
                assert(e.attrs@[i as int].0@.subrange(0, e.attrs@[i as int].0@.len() as int)
                    =~= e.attrs@[i as int].0@);
            }
            return Some(&e.attrs[i].1);
        }
        proof {
            assert(e.attrs@[i as int].0@.subrange(0, e.attrs@[i as int].0@.len() as int)
                =~= e.attrs@[i as int].0@);
        }
        i = i + 1;
    }
    None
}

/// Assembles a line node's display text; mirrors `sp_line_text`.
fn line_text(p: &Element, span_tag: &Vec<char>) -> (r: Vec<char>)
    requires
        span_tag@ == "span"@,
    ensures
        r@ == sp_line_text(p.model()),
{
    if p.text.len() > 0 {
        let n = p.text.len();
        let r = copy_range(&p.text, 0, n);
        proof {
            assert(p.text@.subrange(0, p.text@.len() as int) =~= p.text@);
        }
        r
    } else {
        let mut out: Vec<char> = Vec::new();
        let mut i: usize = 0;
        while i < p.children.len()
            invariant
                i <= p.children@.len(),
                span_tag@ == "span"@,
                out@ + sp_words_from(p.model(), i as int) == sp_words_from(p.model(), 0),
            decreases p.children@.len() - i,
        {
            proof {
                assert(p.model().children[i as int] == p.children@[i as int].model());
            }
            let c = &p.children[i];
            let ghost pre = out@;
            let tlen = c.tag.len();
            if c.text.len() > 0 && eq_range(&c.tag, 0, tlen, span_tag) {
                proof {
                    assert(c.tag@.subrange(0, c.tag@.len() as int) =~= c.tag@);
                }
                append_chars(&mut out, &c.text);
                out.push(' ');
                proof {
                    assert(out@ =~= pre + (c.text@ + seq![' ']));
                    assert(pre + (c.text@ + seq![' ']) + sp_words_from(p.model(), i + 1) =~= pre
                        + (c.text@ + seq![' '] + sp_words_from(p.model(), i + 1)));
                }
            } else {
                proof {
                    assert(c.tag@.subrange(0, c.tag@.len() as int) =~= c.tag@);
                }
            }
            i = i + 1;
        }
        proof {
            assert(out@ + Seq::<char>::empty() =~= out@);
        }
        out
    }
}

/// Extracts one line node; mirrors `sp_line`.
fn line_of(p: &Element) -> (r: Result<(Vec<char>, u64, u64), ParseError>)
    ensures
        (match r {
            Ok(l) => Ok((l.0@, l.1 as int, l.2 as int)),
            Err(e) => Err(e.model()),
        }) == sp_line(p.model()),
{
    let begin_name = str_to_chars("begin");
    let bv = match attr_of(p, &begin_name) {
        None => {
            return Err(ParseError::MissingAttribute(String::from_str("begin")));
        },
        Some(v) => v,
    };
    let b = match parse_time(bv) {
        None => {
            return Err(ParseError::InvalidTimeFormat);
        },
        Some(x) => x,
    };
    let end_name = str_to_chars("end");
    let ev = match attr_of(p, &end_name) {
        None => {
            return Err(ParseError::MissingAttribute(String::from_str("end")));
        },
        Some(v) => v,
    };
    let en = match parse_time(ev) {
        None => {
            return Err(ParseError::InvalidTimeFormat);
        },
        Some(x) => x,
    };
    let span_tag = str_to_chars("span");
    let text = line_text(p, &span_tag);
    Ok((text, b, en))
}

/// The model of a list of extracted raw lines.
pub open spec fn raw_model(a: Seq<(Vec<char>, u64, u64)>) -> Seq<(Seq<char>, int, int)> {
    Seq::new(a.len(), |k: int| (a[k].0@, a[k].1 as int, a[k].2 as int))
}

/// Extracts the lines of one segment node; mirrors `sp_div_lines_from`.
fn div_lines(d: &Element, out: &mut Vec<(Vec<char>, u64, u64)>) -> (r: Result<(), ParseError>)
    ensures
        r is Ok ==> ok_prepend_lines(raw_model(old(out)@), sp_div_lines_from(d.model(), 0))
            == Ok::<Seq<(Seq<char>, int, int)>, ErrModel>(raw_model(final(out)@)),
        r matches Err(e) ==> sp_div_lines_from(d.model(), 0) == Err::<
            Seq<(Seq<char>, int, int)>,
            ErrModel,
        >(e.model()),
{
    let p_tag = str_to_chars("p");
    let mut i: usize = 0;
    while i < d.children.len()
        invariant
            i <= d.children@.len(),
            p_tag@ == "p"@,
            ok_prepend_lines(raw_model(out@), sp_div_lines_from(d.model(), i as int))
                == ok_prepend_lines(raw_model(old(out)@), sp_div_lines_from(d.model(), 0)),
        decreases d.children@.len() - i,
    {
        proof {
            assert(d.model().children[i as int] == d.children@[i as int].model());
        }
        let c = &d.children[i];
        let tlen = c.tag.len();
        let is_p = eq_range(&c.tag, 0, tlen, &p_tag);
        proof {
            assert(c.tag@.subrange(0, c.tag@.len() as int) =~= c.tag@);
        }
        if is_p {
            match line_of(c) {
                Err(e) => {
                    return Err(e);
                },
                Ok(l) => {
                    let ghost pre = raw_model(out@);
                    let ghost lm = (l.0@, l.1 as int, l.2 as int);
                    out.push(l);
                    proof {
                        assert(raw_model(out@) =~= pre.push(lm));
                        if sp_div_lines_from(d.model(), i + 1) is Ok {
                            let rest = sp_div_lines_from(d.model(), i + 1)->Ok_0;
                            assert(pre.push(lm) + rest =~= pre + (seq![lm] + rest));
                        }
                    }
                },
            }
        }
        i = i + 1;
    }
    proof {
        assert(raw_model(out@) + Seq::<(Seq<char>, int, int)>::empty() =~= raw_model(out@));
    }
    Ok(())
}

/// Extracts the lines of every segment of the body; mirrors
/// `sp_body_lines_from`.
fn body_lines(b: &Element) -> (r: Result<Vec<(Vec<char>, u64, u64)>, ParseError>)
    ensures
        (match r {
            Ok(v) => Ok(raw_model(v@)),
            Err(e) => Err(e.model()),
        }) == sp_body_lines_from(b.model(), 0),
{
    let div_tag = str_to_chars("div");
    let mut out: Vec<(Vec<char>, u64, u64)> = Vec::new();
    proof {
        assert(raw_model(Seq::<(Vec<char>, u64, u64)>::empty()) =~= Seq::<
            (Seq<char>, int, int),
        >::empty());
    }
    let mut i: usize = 0;
    while i < b.children.len()
        invariant
            i <= b.children@.len(),
            div_tag@ == "div"@,
            ok_prepend_lines(raw_model(out@), sp_body_lines_from(b.model(), i as int))
                == sp_body_lines_from(b.model(), 0),
        decreases b.children@.len() - i,
    {
        proof {
            assert(b.model().children[i as int] == b.children@[i as int].model());
        }
        let c = &b.children[i];
        let tlen = c.tag.len();
        let is_div = eq_range(&c.tag, 0, tlen, &div_tag);
        proof {
            assert(c.tag@.subrange(0, c.tag@.len() as int) =~= c.tag@);
        }
        if is_div {
            let ghost pre = raw_model(out@);
            match div_lines(c, &mut out) {
                Err(e) => {
                    return Err(e);
                },
                Ok(_) => {
                    proof {
                        let dl = sp_div_lines_from(c.model(), 0);
                        assert(dl is Ok);
                        let ls = dl->Ok_0;
                        assert(raw_model(out@) == pre + ls);
                        if sp_body_lines_from(b.model(), i + 1) is Ok {
                            let rest = sp_body_lines_from(b.model(), i + 1)->Ok_0;
                            assert((pre + ls) + rest =~= pre + (ls + rest));
                        }
                    }
                },
            }
        }
        i = i + 1;
    }
    proof {
        assert(raw_model(out@) + Seq::<(Seq<char>, int, int)>::empty() =~= raw_model(out@));
    }
    Ok(out)
}

/// Reads the songwriter names; mirrors `sp_songwriters_from`.
fn songwriters_of(sw: &Element) -> (r: Result<Vec<String>, ParseError>)
    ensures
        (match r {
            Ok(v) => Ok(strs_model(v@)),
            Err(e) => Err(e.model()),
        }) == sp_songwriters_from(sw.model(), 0),
{
    let mut out: Vec<String> = Vec::new();
    proof {
        assert(strs_model(Seq::<String>::empty()) =~= Seq::<Seq<char>>::empty());
    }
    let mut i: usize = 0;
    while i < sw.children.len()
        invariant
            i <= sw.children@.len(),
            ok_prepend_strs(strs_model(out@), sp_songwriters_from(sw.model(), i as int))
                == sp_songwriters_from(sw.model(), 0),
        decreases sw.children@.len() - i,
    {
        proof {
            assert(sw.model().children[i as int] == sw.children@[i as int].model());
        }
        let c = &sw.children[i];
        if c.text.len() == 0 {
            return Err(ParseError::MissingText);
        }
        let s = chars_to_string(&c.text);
        let ghost pre = strs_model(out@);
        out.push(s);
        proof {
            assert(strs_model(out@) =~= pre.push(c.text@));
            if sp_songwriters_from(sw.model(), i + 1) is Ok {
                let rest = sp_songwriters_from(sw.model(), i + 1)->Ok_0;
                assert(pre.push(c.text@) + rest =~= pre + (seq![c.text@] + rest));
            }
        }
        i = i + 1;
    }
    proof {
        assert(strs_model(out@) + Seq::<Seq<char>>::empty() =~= strs_model(out@));
    }
    Ok(out)
}

/// Locates the iTunes-metadata node; mirrors `sp_itunes`.
fn itunes_of<'a>(root: &'a Element) -> (r: Result<&'a Element, ParseError>)
    ensures
        (match r {
            Ok(c) => Ok(c.model()),
            Err(e) => Err(e.model()),
        }) == sp_itunes(root.model()),
{
    let head_tag = str_to_chars("head");
    let head = match first_child(root, &head_tag) {
        None => {
            return Err(ParseError::MissingSection(String::from_str("head")));
        },
        Some(h) => h,
    };
    let md_tag = str_to_chars("metadata");
    let md = match first_child(head, &md_tag) {
        None => {
            return Err(ParseError::MissingSection(String::from_str("metadata")));
        },
        Some(m) => m,
    };
    if md.children.len() == 0 {
        Err(ParseError::MissingSection(String::from_str("itunes-metadata")))
    } else {
        proof {
            assert(md.model().children[0] == md.children@[0].model());
        }
        Ok(&md.children[0])
    }
}

/// Reads the leading silence; mirrors `sp_silence`.
fn silence_of(it: &Element) -> (r: Result<u64, ParseError>)
    ensures
        (match r {
            Ok(x) => Ok(x as int),
            Err(e) => Err(e.model()),
        }) == sp_silence(it.model()),
{
    let name = str_to_chars("leadingSilence");
    match attr_of(it, &name) {
        None => Ok(0),
        Some(v) => match parse_dec(v) {
            None => Err(ParseError::InvalidNumber),
            Some(x) => Ok(x),
        },
    }
}

/// Builds the identifier of the line at position `k`.
fn make_line_id(k: u64) -> (r: String)
    ensures
        r@ == sp_line_id(k as int),
{
    let mut v = str_to_chars("line-");
    crate::numtext::push_dec(k, &mut v);
    chars_to_string(&v)
}

/// Turns the extracted raw lines into lyric lines with identifiers.
fn assemble_lines(raw: &Vec<(Vec<char>, u64, u64)>) -> (r: Vec<LyricLine>)
    ensures
        lines_model(r@) == with_ids(raw_model(raw@)),
{
    let mut out: Vec<LyricLine> = Vec::new();
    let mut k: usize = 0;
    while k < raw.len()
        invariant
            k <= raw@.len(),
            out@.len() == k,
            forall|j: int|
                0 <= j < k ==> (#[trigger] out@[j]).model() == (LineModel {
                    id: sp_line_id(j),
                    text: raw@[j].0@,
                    start: raw@[j].1 as int,
                    end: raw@[j].2 as int,
                }),
        decreases raw@.len() - k,
    {
        let id = make_line_id(k as u64);
        let text = chars_to_string(&raw[k].0);
        let l = LyricLine {
            id,
            text,
            start_time_micros: raw[k].1,
            end_time_micros: raw[k].2,
        };
        out.push(l);
        k = k + 1;
    }
    proof {
        assert(lines_model(out@) =~= with_ids(raw_model(raw@)));
    }
    out
}

/// Parses a lyrics document. The result is exactly what `sp_parse_lyrics`
/// maps the input to: the ordered lines with their identifiers, offsets in
/// microseconds, the leading silence, and the songwriters.
pub fn parse(raw_text: &str) -> (r: Result<LyricsDocument, ParseError>)
    ensures
        (match r {
            Ok(d) => Ok(d.model()),
            Err(e) => Err(e.model()),
        }) == sp_parse_lyrics(raw_text@),
{
    let cs = str_to_chars(raw_text);
    let root = match parse_document(&cs) {
        None => {
            return Err(ParseError::Malformed);
        },
        Some(e) => e,
    };
    let body_tag = str_to_chars("body");
    let body = match first_child(&root, &body_tag) {
        None => {
            return Err(ParseError::MissingSection(String::from_str("body")));
        },
        Some(b) => b,
    };
    let it = match itunes_of(&root) {
        Err(e) => {
            return Err(e);
        },
        Ok(x) => x,
    };
    let sws: Vec<String> = if it.children.len() > 0 {
        proof {
            assert(it.model().children[0] == it.children@[0].model());
        }
        match songwriters_of(&it.children[0]) {
            Err(e) => {
                return Err(e);
            },
            Ok(v) => v,
        }
    } else {
        let v: Vec<String> = Vec::new();
        proof {
            assert(strs_model(v@) =~= Seq::<Seq<char>>::empty());
        }
        v
    };
    let raw = match body_lines(body) {
        Err(e) => {
            return Err(e);
        },
        Ok(v) => v,
    };
    let sil = match silence_of(it) {
        Err(e) => {
            return Err(e);
        },
        Ok(x) => x,
    };
    let lines = assemble_lines(&raw);
    let doc = LyricsDocument { lines, leading_silence_micros: sil, songwriters: sws };
    proof {
        assert(doc.model() =~= sp_parse_lyrics(raw_text@)->Ok_0);
    }
    Ok(doc)
}

} // verus!
