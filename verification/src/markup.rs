//! A small markup-tree parser for the timed-text dialect.
//!
//! The dialect: one root element; an element is `<name attr="v" ...>` content
//! `</name>` or `<name attr="v" .../>`; content is either raw text (no `<`),
//! or child elements separated by whitespace, or empty. No prolog, comments,
//! entity references or mixed content. `sp_document` is the specification:
//! it maps the character sequence to the tree that `parse_document` returns.

use vstd::prelude::*;

verus! {

/// The mathematical model of one markup element.
#[verifier::ext_equal]
pub struct Elem {
    pub tag: Seq<char>,
    pub attrs: Seq<(Seq<char>, Seq<char>)>,
    pub children: Seq<Elem>,
    pub text: Seq<char>,
}

/// True when the character counts as markup whitespace.
pub open spec fn is_ws(c: char) -> bool {
    c == ' ' || c == '\n' || c == '\t' || c == '\r'
}

/// True when the character may stand in a tag or attribute name.
pub open spec fn is_name_char(c: char) -> bool {
    ('a' <= c && c <= 'z') || ('A' <= c && c <= 'Z') || ('0' <= c && c <= '9') || c == '-'
        || c == '_' || c == ':' || c == '.'
}

/// Decides whether a character counts as markup whitespace.
pub fn ws_char(c: char) -> (r: bool)
    ensures
        r == is_ws(c),
{
    c == ' ' || c == '\n' || c == '\t' || c == '\r'
}

/// Decides whether a character may stand in a name.
pub fn name_char(c: char) -> (r: bool)
    ensures
        r == is_name_char(c),
{
    ('a' <= c && c <= 'z') || ('A' <= c && c <= 'Z') || ('0' <= c && c <= '9') || c == '-'
        || c == '_' || c == ':' || c == '.'
}

/// Index of the first non-whitespace character at or after `i`.
pub open spec fn sp_skip_ws(s: Seq<char>, i: int) -> int
    decreases s.len() - i,
{
    if 0 <= i < s.len() && is_ws(s[i]) {
        sp_skip_ws(s, i + 1)
    } else {
        i
    }
}

/// Index of the first non-name character at or after `i`.
pub open spec fn sp_scan_name(s: Seq<char>, i: int) -> int
    decreases s.len() - i,
{
    if 0 <= i < s.len() && is_name_char(s[i]) {
        sp_scan_name(s, i + 1)
    } else {
        i
    }
}

/// Index of the first `<` at or after `i`, or the length if there is none.
pub open spec fn sp_find_lt(s: Seq<char>, i: int) -> int
    decreases s.len() - i,
{
    if 0 <= i < s.len() && s[i] != '<' {
        sp_find_lt(s, i + 1)
    } else {
        i
    }
}

/// Index of the first `"` at or after `i`, or the length if there is none.
pub open spec fn sp_find_quote(s: Seq<char>, i: int) -> int
    decreases s.len() - i,
{
    if 0 <= i < s.len() && s[i] != '"' {
        sp_find_quote(s, i + 1)
    } else {
        i
    }
}

/// The attribute list read from `i` (after the tag name), appended to `acc`,
/// and the index of the character that ends the list (`>` or `/`).
pub open spec fn sp_attrs(s: Seq<char>, i: int, acc: Seq<(Seq<char>, Seq<char>)>) -> Option<
    (Seq<(Seq<char>, Seq<char>)>, int),
>
    decreases s.len() - i,
{
    let j = sp_skip_ws(s, i);
    if j < s.len() && is_name_char(s[j]) {
        let k = sp_scan_name(s, j);
        if k < s.len() && s[k] == '=' && k + 1 < s.len() && s[k + 1] == '"' {
            let v = sp_find_quote(s, k + 2);
            if v < s.len() && i < v + 1 {
                sp_attrs(s, v + 1, acc.push((s.subrange(j, k), s.subrange(k + 2, v))))
            } else {
                None
            }
        } else {
            None
        }
    } else {
        Some((acc, j))
    }
}

/// The index just past a closing tag `</tag>` standing at `i`, if one does.
pub open spec fn sp_close(s: Seq<char>, i: int, tag: Seq<char>) -> Option<int> {
    if i < s.len() && s[i] == '<' && i + 1 < s.len() && s[i + 1] == '/' {
        let q = i + 2;
        let r = sp_scan_name(s, q);
        if s.subrange(q, r) == tag && r < s.len() && s[r] == '>' {
            Some(r + 1)
        } else {
            None
        }
    } else {
        None
    }
}

/// The element written at `i` and the index just past it, if the text from
/// `i` starts with a well-formed element.
pub open spec fn sp_element(s: Seq<char>, i: int) -> Option<(Elem, int)>
    decreases s.len() - i, 0int,
{
    if i < s.len() && s[i] == '<' {
        let k = sp_scan_name(s, i + 1);
        if k > i + 1 {
            let tag = s.subrange(i + 1, k);
            match sp_attrs(s, k, Seq::empty()) {
                None => None,
                Some((attrs, m)) => {
                    if m < s.len() && s[m] == '/' {
                        if m + 1 < s.len() && s[m + 1] == '>' {
                            Some(
                                (
                                    Elem {
                                        tag,
                                        attrs,
                                        children: Seq::empty(),
                                        text: Seq::empty(),
                                    },
                                    m + 2,
                                ),
                            )
                        } else {
                            None
                        }
                    } else if m < s.len() && s[m] == '>' {
                        let c = m + 1;
                        let w = sp_skip_ws(s, c);
                        if w < s.len() && s[w] == '<' {
                            if w + 1 < s.len() && s[w + 1] == '/' {
                                match sp_close(s, w, tag) {
                                    Some(e) => Some(
                                        (
                                            Elem {
                                                tag,
                                                attrs,
                                                children: Seq::empty(),
                                                text: Seq::empty(),
                                            },
                                            e,
                                        ),
                                    ),
                                    None => None,
                                }
                            } else if i < w {
                                match sp_children(s, w, Seq::empty()) {
                                    Some((cs, p)) => match sp_close(s, p, tag) {
                                        Some(e) => Some(
                                            (
                                                Elem {
                                                    tag,
                                                    attrs,
                                                    children: cs,
                                                    text: Seq::empty(),
                                                },
                                                e,
                                            ),
                                        ),
                                        None => None,
                                    },
                                    None => None,
                                }
                            } else {
                                None
                            }
                        } else if w < s.len() {
                            let t = sp_find_lt(s, c);
                            if t < s.len() {
                                match sp_close(s, t, tag) {
                                    Some(e) => Some(
                                        (
                                            Elem {
                                                tag,
                                                attrs,
                                                children: Seq::empty(),
                                                text: s.subrange(c, t),
                                            },
                                            e,
                                        ),
                                    ),
                                    None => None,
                                }
                            } else {
                                None
                            }
                        } else {
                            None
                        }
                    } else {
                        None
                    }
                },
            }
        } else {
            None
        }
    } else {
        None
    }
}

/// The sibling elements read from `i` (appended to `acc`) up to the `<` of
/// the enclosing closing tag.
pub open spec fn sp_children(s: Seq<char>, i: int, acc: Seq<Elem>) -> Option<(Seq<Elem>, int)>
    decreases s.len() - i, 1int,
{
    match sp_element(s, i) {
        None => None,
        Some((e, j)) => {
            let w = sp_skip_ws(s, j);
            if w < s.len() && s[w] == '<' && w + 1 < s.len() && s[w + 1] == '/' {
                Some((acc.push(e), w))
            } else if w < s.len() && s[w] == '<' && i < w {
                sp_children(s, w, acc.push(e))
            } else {
                None
            }
        },
    }
}

/// The document's root element: the whole text must be one element with
/// nothing but whitespace around it.
pub open spec fn sp_document(s: Seq<char>) -> Option<Elem> {
    let i = sp_skip_ws(s, 0);
    match sp_element(s, i) {
        Some((e, j)) => if sp_skip_ws(s, j) == s.len() {
            Some(e)
        } else {
            None
        },
        None => None,
    }
}

/// One parsed markup element.
pub struct Element {
    pub tag: Vec<char>,
    pub attrs: Vec<(Vec<char>, Vec<char>)>,
    pub children: Vec<Element>,
    pub text: Vec<char>,
}

/// The model of an attribute list.
pub open spec fn attrs_model(a: Seq<(Vec<char>, Vec<char>)>) -> Seq<(Seq<char>, Seq<char>)> {
    Seq::new(a.len(), |k: int| (a[k].0@, a[k].1@))
}

/// The model of an element with nothing in it.
pub open spec fn empty_elem() -> Elem {
    Elem { tag: Seq::empty(), attrs: Seq::empty(), children: Seq::empty(), text: Seq::empty() }
}

impl Element {
    /// The mathematical tree this element stands for.
    pub open spec fn model(self) -> Elem
        decreases self,
        via Self::model_decreases
    {
        Elem {
            tag: self.tag@,
            attrs: attrs_model(self.attrs@),
            children: Seq::new(
                self.children@.len(),
                |k: int|
                    if 0 <= k < self.children@.len() {
                        self.children@[k].model()
                    } else {
                        empty_elem()
                    },
            ),
            text: self.text@,
        }
    }

    #[via_fn]
    proof fn model_decreases(self) {
        assert forall|k: int| 0 <= k < self.children@.len() implies (decreases_to!(
            self => self.children@[k]
        )) by {
            vstd::std_specs::vec::axiom_vec_index_decreases(self.children, k);
            assert(decreases_to!(self => self.children));
        }
    }
}

/// The model of a list of elements.
pub open spec fn elems_model(a: Seq<Element>) -> Seq<Elem> {
    Seq::new(a.len(), |k: int| a[k].model())
}

/// The model of an optional element-and-position result.
pub open spec fn elem_opt_model(r: Option<(Element, usize)>) -> Option<(Elem, int)> {
    match r {
        Some((e, p)) => Some((e.model(), p as int)),
        None => None,
    }
}

/// The model of an optional attribute-list result.
pub open spec fn attrs_opt_model(r: Option<(Vec<(Vec<char>, Vec<char>)>, usize)>) -> Option<
    (Seq<(Seq<char>, Seq<char>)>, int),
> {
    match r {
        Some((a, p)) => Some((attrs_model(a@), p as int)),
        None => None,
    }
}

/// The model of an optional children-list result.
pub open spec fn children_opt_model(r: Option<(Vec<Element>, usize)>) -> Option<(Seq<Elem>, int)> {
    match r {
        Some((a, p)) => Some((elems_model(a@), p as int)),
        None => None,
    }
}

/// Advances past whitespace.
pub fn skip_ws(s: &Vec<char>, i: usize) -> (r: usize)
    requires
        i <= s@.len(),
    ensures
        r as int == sp_skip_ws(s@, i as int),
        i <= r <= s@.len(),
{
    let mut j: usize = i;
    while j < s.len() && ws_char(s[j])
        invariant
            i <= j <= s@.len(),
            sp_skip_ws(s@, i as int) == sp_skip_ws(s@, j as int),
        decreases s@.len() - j,
    {
        j = j + 1;
    }
    j
}

/// Advances past name characters.
pub fn scan_name(s: &Vec<char>, i: usize) -> (r: usize)
    requires
        i <= s@.len(),
    ensures
        r as int == sp_scan_name(s@, i as int),
        i <= r <= s@.len(),
{
    let mut j: usize = i;
    while j < s.len() && name_char(s[j])
        invariant
            i <= j <= s@.len(),
            sp_scan_name(s@, i as int) == sp_scan_name(s@, j as int),
        decreases s@.len() - j,
    {
        j = j + 1;
    }
    j
}

/// Advances to the next `<`.
pub fn find_lt(s: &Vec<char>, i: usize) -> (r: usize)
    requires
        i <= s@.len(),
    ensures
        r as int == sp_find_lt(s@, i as int),
        i <= r <= s@.len(),
{
    let mut j: usize = i;
    while j < s.len() && s[j] != '<'
        invariant
            i <= j <= s@.len(),
            sp_find_lt(s@, i as int) == sp_find_lt(s@, j as int),
        decreases s@.len() - j,
    {
        j = j + 1;
    }
    j
}

/// Advances to the next `"`.
pub fn find_quote(s: &Vec<char>, i: usize) -> (r: usize)
    requires
        i <= s@.len(),
    ensures
        r as int == sp_find_quote(s@, i as int),
        i <= r <= s@.len(),
{
    let mut j: usize = i;
    while j < s.len() && s[j] != '"'
        invariant
            i <= j <= s@.len(),
            sp_find_quote(s@, i as int) == sp_find_quote(s@, j as int),
        decreases s@.len() - j,
    {
        j = j + 1;
    }
    j
}

/// Copies the characters of `s` between `a` and `b`.
pub fn copy_range(s: &Vec<char>, a: usize, b: usize) -> (r: Vec<char>)
    requires
        a <= b <= s@.len(),
    ensures
        r@ == s@.subrange(a as int, b as int),
{
    let mut out: Vec<char> = Vec::new();
    let mut j: usize = a;
    while j < b
        invariant
            a <= j <= b <= s@.len(),
            out@ == s@.subrange(a as int, j as int),
        decreases b - j,
    {
        out.push(s[j]);
        j = j + 1;
        proof {
            assert(out@ =~= s@.subrange(a as int, j as int));
        }
    }
    out
}

/// Compares the characters of `s` between `a` and `b` with `t`.
pub fn eq_range(s: &Vec<char>, a: usize, b: usize, t: &Vec<char>) -> (r: bool)
    requires
        a <= b <= s@.len(),
    ensures
        r == (s@.subrange(a as int, b as int) == t@),
{
    if b - a != t.len() {
        proof {
            assert(s@.subrange(a as int, b as int).len() == b - a);
        }
        return false;
    }
    let mut j: usize = 0;
    while j < t.len()
        invariant
            0 <= j <= t@.len(),
            b - a == t@.len(),
            a <= b <= s@.len(),
            forall|k: int| 0 <= k < j ==> s@[a + k] == t@[k],
        decreases t@.len() - j,
    {
        if s[a + j] != t[j] {
            proof {
                assert(s@.subrange(a as int, b as int)[j as int] == s@[a + j]);
            }
            return false;
        }
        j = j + 1;
    }
    proof {
        assert(s@.subrange(a as int, b as int) =~= t@);
    }
    true
}

/// Parses an attribute list; mirrors `sp_attrs`.
fn parse_attrs(s: &Vec<char>, i: usize, acc: Vec<(Vec<char>, Vec<char>)>) -> (r: Option<
    (Vec<(Vec<char>, Vec<char>)>, usize),
>)
    requires
        i <= s@.len(),
    ensures
        attrs_opt_model(r) == sp_attrs(s@, i as int, attrs_model(acc@)),
        r matches Some((_, p)) ==> i <= p <= s@.len(),
    decreases s@.len() - i,
{
    let j = skip_ws(s, i);
    if j < s.len() && name_char(s[j]) {
        let k = scan_name(s, j);
        if k < s.len() && s[k] == '=' && k + 1 < s.len() && s[k + 1] == '"' {
            let v = find_quote(s, k + 2);
            if v < s.len() {
                let name = copy_range(s, j, k);
                let value = copy_range(s, k + 2, v);
                let ghost acc0 = attrs_model(acc@);
                let mut acc2 = acc;
                acc2.push((name, value));
                proof {
                    assert(attrs_model(acc2@) =~= acc0.push(
                        (s@.subrange(j as int, k as int), s@.subrange(k as int + 2, v as int)),
                    ));
                }
                parse_attrs(s, v + 1, acc2)
            } else {
                None
            }
        } else {
            None
        }
    } else {
        Some((acc, j))
    }
}

/// Reads a closing tag `</tag>`; mirrors `sp_close`.
fn close_tag(s: &Vec<char>, i: usize, tag: &Vec<char>) -> (r: Option<usize>)
    requires
        i <= s@.len(),
    ensures
        (match r {
            Some(p) => Some(p as int),
            None => None::<int>,
        }) == sp_close(s@, i as int, tag@),
        r matches Some(p) ==> i < p <= s@.len(),
{
    if i < s.len() && s[i] == '<' && i + 1 < s.len() && s[i + 1] == '/' {
        let q = i + 2;
        let r2 = scan_name(s, q);
        if eq_range(s, q, r2, tag) && r2 < s.len() && s[r2] == '>' {
            Some(r2 + 1)
        } else {
            None
        }
    } else {
        None
    }
}

/// Parses one element; mirrors `sp_element`.
fn parse_element(s: &Vec<char>, i: usize) -> (r: Option<(Element, usize)>)
    requires
        i <= s@.len(),
    ensures
        elem_opt_model(r) == sp_element(s@, i as int),
        r matches Some((_, p)) ==> i < p <= s@.len(),
    decreases s@.len() - i, 0int,
{
    if i < s.len() && s[i] == '<' {
        let k = scan_name(s, i + 1);
        if k > i + 1 {
            let tag = copy_range(s, i + 1, k);
            match parse_attrs(s, k, Vec::new()) {
                None => {
                    proof {
                        assert(attrs_model(Seq::<(Vec<char>, Vec<char>)>::empty()) =~= Seq::<
                            (Seq<char>, Seq<char>),
                        >::empty());
                    }
                    None
                },
                Some((attrs, m)) => {
                    proof {
                        assert(attrs_model(Seq::<(Vec<char>, Vec<char>)>::empty()) =~= Seq::<
                            (Seq<char>, Seq<char>),
                        >::empty());
                    }
                    if m < s.len() && s[m] == '/' {
                        if m + 1 < s.len() && s[m + 1] == '>' {
                            let e = Element { tag, attrs, children: Vec::new(), text: Vec::new() };
                            proof {
                                assert(e.model().children =~= Seq::<Elem>::empty());
                                assert(e.model().text =~= Seq::<char>::empty());
                            }
                            Some((e, m + 2))
                        } else {
                            None
                        }
                    } else if m < s.len() && s[m] == '>' {
                        let c = m + 1;
                        let w = skip_ws(s, c);
                        if w < s.len() && s[w] == '<' {
                            if w + 1 < s.len() && s[w + 1] == '/' {
                                match close_tag(s, w, &tag) {
                                    Some(e2) => {
                                        let e = Element {
                                            tag,
                                            attrs,
                                            children: Vec::new(),
                                            text: Vec::new(),
                                        };
                                        proof {
                                            assert(e.model().children =~= Seq::<Elem>::empty());
                                            assert(e.model().text =~= Seq::<char>::empty());
                                        }
                                        Some((e, e2))
                                    },
                                    None => None,
                                }
                            } else {
                                match parse_children(s, w, Vec::new()) {
                                    Some((cs, p)) => {
                                        proof {
                                            assert(elems_model(Seq::<Element>::empty()) =~= Seq::<
                                                Elem,
                                            >::empty());
                                        }
                                        match close_tag(s, p, &tag) {
                                            Some(e2) => {
                                                let e = Element {
                                                    tag,
                                                    attrs,
                                                    children: cs,
                                                    text: Vec::new(),
                                                };
                                                proof {
                                                    assert(e.model().children =~= elems_model(
                                                        e.children@,
                                                    ));
                                                    assert(e.model().text =~= Seq::<char>::empty());
                                                }
                                                Some((e, e2))
                                            },
                                            None => None,
                                        }
                                    },
                                    None => {
                                        proof {
                                            assert(elems_model(Seq::<Element>::empty()) =~= Seq::<
                                                Elem,
                                            >::empty());
                                        }
                                        None
                                    },
                                }
                            }
                        } else if w < s.len() {
                            let t = find_lt(s, c);
                            if t < s.len() {
                                match close_tag(s, t, &tag) {
                                    Some(e2) => {
                                        let text = copy_range(s, c, t);
                                        let e = Element { tag, attrs, children: Vec::new(), text };
                                        proof {
                                            assert(e.model().children =~= Seq::<Elem>::empty());
                                        }
                                        Some((e, e2))
                                    },
                                    None => None,
                                }
                            } else {
                                None
                            }
                        } else {
                            None
                        }
                    } else {
                        None
                    }
                },
            }
        } else {
            None
        }
    } else {
        None
    }
}

/// Parses sibling elements up to a closing tag; mirrors `sp_children`.
fn parse_children(s: &Vec<char>, i: usize, acc: Vec<Element>) -> (r: Option<(Vec<Element>, usize)>)
    requires
        i <= s@.len(),
    ensures
        children_opt_model(r) == sp_children(s@, i as int, elems_model(acc@)),
        r matches Some((_, p)) ==> i < p <= s@.len(),
    decreases s@.len() - i, 1int,
{
    match parse_element(s, i) {
        None => None,
        Some((e, j)) => {
            let w = skip_ws(s, j);
            if w < s.len() && s[w] == '<' && w + 1 < s.len() && s[w + 1] == '/' {
                let ghost acc0 = elems_model(acc@);
                let ghost em = e.model();
                let mut acc2 = acc;
                acc2.push(e);
                proof {
                    assert(elems_model(acc2@) =~= acc0.push(em));
                }
                Some((acc2, w))
            } else if w < s.len() && s[w] == '<' {
                let ghost acc0 = elems_model(acc@);
                let ghost em = e.model();
                let mut acc2 = acc;
                acc2.push(e);
                proof {
                    assert(elems_model(acc2@) =~= acc0.push(em));
                }
                parse_children(s, w, acc2)
            } else {
                None
            }
        },
    }
}

/// Parses a whole document; the result is exactly `sp_document` of the text.
pub fn parse_document(s: &Vec<char>) -> (r: Option<Element>)
    ensures
        (match r {
            Some(e) => Some(e.model()),
            None => None::<Elem>,
        }) == sp_document(s@),
{
    let i = skip_ws(s, 0);
    match parse_element(s, i) {
        Some((e, j)) => {
            let z = skip_ws(s, j);
            if z == s.len() {
                Some(e)
            } else {
                None
            }
        },
        None => None,
    }
}

} // verus!
