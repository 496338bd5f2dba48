//! The executable XML attribute extractor, verified against the model in
//! [`crate::scan`].
//!
//! `XmlParser` holds the full document text; each lookup re-parses the
//! document from the beginning, so the four lookups of a configuration run
//! are independent of one another.  This repeated pass is a deliberate
//! simplicity choice: the documents are small configuration payloads, and a
//! stateless lookup is a pure function of the document and the key.

use vstd::prelude::*;
use vstd::string::StrSliceExecFns;
use crate::error::SpeedtestError;
use crate::error::XmlFault;
use crate::scan::ScanResult;
use crate::scan::comment_end;
use crate::scan::gt_end;
use crate::scan::is_name_char;
use crate::scan::is_name_start;
use crate::scan::is_space;
use crate::scan::lemma_name_end_bounds;
use crate::scan::lemma_parse_attrs_bounds;
use crate::scan::local_name;
use crate::scan::local_start;
use crate::scan::name_end;
use crate::scan::parse_attrs;
use crate::scan::pi_end;
use crate::scan::quote_end;
use crate::scan::scan;
use crate::scan::scan_from;
use crate::scan::skip_spaces;

verus! {

/// One attribute of an element: a (name, value) pair of the source text,
/// the value exactly as written between its quotes.
#[derive(Debug, PartialEq, Eq)]
pub struct Attribute {
    pub name: String,
    pub value: String,
}

impl View for Attribute {
    type V = (Seq<char>, Seq<char>);

    open spec fn view(&self) -> (Seq<char>, Seq<char>) {
        (self.name@, self.value@)
    }
}

/// The (name, value) pairs that a sequence of attributes stands for.
pub open spec fn attrs_view(s: Seq<Attribute>) -> Seq<(Seq<char>, Seq<char>)> {
    s.map_values(|a: Attribute| a@)
}

/// A start-element event: the full (possibly qualified) tag name and the
/// attribute list in document order, duplicates kept.
#[derive(Debug, PartialEq, Eq)]
pub struct StartTag {
    pub name: String,
    pub attributes: Vec<Attribute>,
}

/// The characters of `s`, in order, as an indexable vector.
fn to_chars(s: &str) -> (r: Vec<char>)
    ensures
        r@ == s@,
{
    let n: usize = s.unicode_len();
    let mut v: Vec<char> = Vec::new();
    let mut i: usize = 0;
    while i < n
        invariant
            i <= n,
            n == s@.len(),
            v@ == s@.subrange(0, i as int),
        decreases n - i,
    {
        let c = s.get_char(i);
        v.push(c);
        i = i + 1;
        proof {
            assert(v@ =~= s@.subrange(0, i as int));
        }
    }
    proof {
        assert(v@ =~= s@);
    }
    v
}

/// The owned text of `s[from..to]`, counted in characters.
fn substring(s: &str, from: usize, to: usize) -> (r: String)
    requires
        from <= to <= s@.len(),
    ensures
        r@ == s@.subrange(from as int, to as int),
{
    s.substring_char(from, to).to_owned()
}

fn is_space_x(c: char) -> (b: bool)
    ensures
        b == is_space(c),
{
    c == ' ' || c == '\n' || c == '\t' || c == '\r'
}

fn is_name_start_x(c: char) -> (b: bool)
    ensures
        b == is_name_start(c),
{
    (65 <= c as u32 && c as u32 <= 90) || (97 <= c as u32 && c as u32 <= 122) || c == '_' || c == ':'
}

fn is_name_char_x(c: char) -> (b: bool)
    ensures
        b == is_name_char(c),
{
    is_name_start_x(c) || (48 <= c as u32 && c as u32 <= 57) || c == '-' || c == '.'
}

fn skip_spaces_x(doc: &Vec<char>, pos: usize) -> (r: usize)
    requires
        pos <= doc@.len(),
    ensures
        r as int == skip_spaces(doc@, pos as int),
        pos <= r <= doc@.len(),
{
    let mut i: usize = pos;
    while i < doc.len() && is_space_x(doc[i])
        invariant
            pos <= i <= doc@.len(),
            skip_spaces(doc@, pos as int) == skip_spaces(doc@, i as int),
        decreases doc@.len() - i,
    {
        i = i + 1;
    }
    i
}

fn name_end_x(doc: &Vec<char>, pos: usize) -> (r: usize)
    requires
        pos <= doc@.len(),
    ensures
        r as int == name_end(doc@, pos as int),
        pos <= r <= doc@.len(),
{
    let mut i: usize = pos;
    while i < doc.len() && is_name_char_x(doc[i])
        invariant
            pos <= i <= doc@.len(),
            name_end(doc@, pos as int) == name_end(doc@, i as int),
        decreases doc@.len() - i,
    {
        i = i + 1;
    }
    i
}

fn pi_end_x(doc: &Vec<char>, pos: usize) -> (r: Option<usize>)
    requires
        pos <= doc@.len(),
    ensures
        match r {
            Some(e) => pi_end(doc@, pos as int) == Some(e as int) && pos <= e <= doc@.len(),
            None => pi_end(doc@, pos as int) is None,
        },
{
    let mut i: usize = pos;
    while doc.len() - i >= 2
        invariant
            pos <= i <= doc@.len(),
            pi_end(doc@, pos as int) == pi_end(doc@, i as int),
        decreases doc@.len() - i,
    {
        if doc[i] == '?' && doc[i + 1] == '>' {
            return Some(i + 2);
        }
        i = i + 1;
    }
    None
}

fn comment_end_x(doc: &Vec<char>, pos: usize) -> (r: Option<usize>)
    requires
        pos <= doc@.len(),
    ensures
        match r {
            Some(e) => comment_end(doc@, pos as int) == Some(e as int) && pos <= e <= doc@.len(),
            None => comment_end(doc@, pos as int) is None,
        },
{
    let mut i: usize = pos;
    while doc.len() - i >= 3
        invariant
            pos <= i <= doc@.len(),
            comment_end(doc@, pos as int) == comment_end(doc@, i as int),
        decreases doc@.len() - i,
    {
        if doc[i] == '-' && doc[i + 1] == '-' && doc[i + 2] == '>' {
            return Some(i + 3);
        }
        i = i + 1;
    }
    None
}

fn gt_end_x(doc: &Vec<char>, pos: usize) -> (r: Option<usize>)
    requires
        pos <= doc@.len(),
    ensures
        match r {
            Some(e) => gt_end(doc@, pos as int) == Some(e as int) && pos <= e <= doc@.len(),
            None => gt_end(doc@, pos as int) is None,
        },
{
    let mut i: usize = pos;
    while i < doc.len()
        invariant
            pos <= i <= doc@.len(),
            gt_end(doc@, pos as int) == gt_end(doc@, i as int),
        decreases doc@.len() - i,
    {
        if doc[i] == '>' {
            return Some(i + 1);
        }
        i = i + 1;
    }
    None
}

fn quote_end_x(doc: &Vec<char>, pos: usize, q: char) -> (r: Option<usize>)
    requires
        pos <= doc@.len(),
    ensures
        match r {
            Some(e) => quote_end(doc@, pos as int, q) == Some(e as int) && pos <= e < doc@.len(),
            None => quote_end(doc@, pos as int, q) is None,
        },
{
    let mut i: usize = pos;
    while i < doc.len()
        invariant
            pos <= i <= doc@.len(),
            quote_end(doc@, pos as int, q) == quote_end(doc@, i as int, q),
        decreases doc@.len() - i,
    {
        if doc[i] == q {
            return Some(i);
        }
        i = i + 1;
    }
    None
}

/// The absolute start of the local part of the name in `doc[lo..hi]`.
fn local_start_x(doc: &Vec<char>, lo: usize, hi: usize) -> (r: usize)
    requires
        lo <= hi <= doc@.len(),
    ensures
        lo <= r <= hi,
        r - lo == local_start(doc@.subrange(lo as int, hi as int), hi - lo),
{
    let ghost n = doc@.subrange(lo as int, hi as int);
    let mut i: usize = hi;
    loop
        invariant
            lo <= i <= hi <= doc@.len(),
            n == doc@.subrange(lo as int, hi as int),
            local_start(n, (hi - lo) as int) == local_start(n, (i - lo) as int),
        decreases i,
    {
        if i == lo {
            return lo;
        }
        if doc[i - 1] == ':' {
            return i;
        }
        i = i - 1;
    }
}

/// Whether `doc[lo..hi]` equals `other` character for character.
fn range_eq_vec(doc: &Vec<char>, lo: usize, hi: usize, other: &Vec<char>) -> (b: bool)
    requires
        lo <= hi <= doc@.len(),
    ensures
        b == (doc@.subrange(lo as int, hi as int) == other@),
{
    if hi - lo != other.len() {
        return false;
    }
    let n: usize = hi - lo;
    let mut k: usize = 0;
    while k < n
        invariant
            lo + n == hi,
            hi <= doc@.len(),
            n == other@.len(),
            k <= n,
            forall|j: int| 0 <= j < k ==> doc@[lo + j] == other@[j],
        decreases n - k,
    {
        if doc[lo + k] != other[k] {
            proof {
                assert(doc@.subrange(lo as int, hi as int)[k as int] != other@[k as int]);
            }
            return false;
        }
        k = k + 1;
    }
    proof {
        assert(doc@.subrange(lo as int, hi as int) =~= other@);
    }
    true
}

/// Whether `doc[lo..hi]` equals `doc[lo2..hi2]` character for character.
fn range_eq_range(doc: &Vec<char>, lo: usize, hi: usize, lo2: usize, hi2: usize) -> (b: bool)
    requires
        lo <= hi <= doc@.len(),
        lo2 <= hi2 <= doc@.len(),
    ensures
        b == (doc@.subrange(lo as int, hi as int) == doc@.subrange(lo2 as int, hi2 as int)),
{
    if hi - lo != hi2 - lo2 {
        proof {
            assert(doc@.subrange(lo as int, hi as int).len() != doc@.subrange(
                lo2 as int,
                hi2 as int,
            ).len());
        }
        return false;
    }
    let n: usize = hi - lo;
    let mut k: usize = 0;
    while k < n
        invariant
            lo + n == hi,
            lo2 + n == hi2,
            hi <= doc@.len(),
            hi2 <= doc@.len(),
            k <= n,
            forall|j: int| 0 <= j < k ==> #[trigger] doc@.subrange(lo as int, hi as int)[j]
                == doc@.subrange(lo2 as int, hi2 as int)[j],
        decreases n - k,
    {
        if doc[lo + k] != doc[lo2 + k] {
            proof {
                assert(doc@.subrange(lo as int, hi as int)[k as int] != doc@.subrange(
                    lo2 as int,
                    hi2 as int,
                )[k as int]);
            }
            return false;
        }
        k = k + 1;
    }
    proof {
        assert(doc@.subrange(lo as int, hi as int) =~= doc@.subrange(lo2 as int, hi2 as int));
    }
    true
}

/// `r` with `prefix` prepended to its attribute list, where it has one.
spec fn with_attrs_prefix(
    prefix: Seq<(Seq<char>, Seq<char>)>,
    r: Option<(int, Seq<(Seq<char>, Seq<char>)>, bool)>,
) -> Option<(int, Seq<(Seq<char>, Seq<char>)>, bool)> {
    match r {
        None => None,
        Some(s) => Some((s.0, prefix + s.1, s.2)),
    }
}

/// The attribute list of the tag whose name ends at `pos`, as executable
/// values: the position past the tag, the attributes, and whether the tag
/// is self-closing; `None` on a malformed tag.
fn parse_attrs_x(body: &str, doc: &Vec<char>, pos: usize) -> (r: Option<(usize, Vec<Attribute>, bool)>)
    requires
        doc@ == body@,
        pos <= doc@.len(),
    ensures
        match parse_attrs(doc@, pos as int) {
            None => r is None,
            Some(s) => r matches Some(t) && t.0 as int == s.0 && attrs_view(t.1@) == s.1 && t.2
                == s.2 && pos < t.0 <= doc@.len(),
        },
{
    proof {
        lemma_parse_attrs_bounds(doc@, pos as int);
    }
    let mut acc: Vec<Attribute> = Vec::new();
    let mut i: usize = pos;
    proof {
        assert(attrs_view(acc@) =~= Seq::<(Seq<char>, Seq<char>)>::empty());
        match parse_attrs(doc@, pos as int) {
            None => {},
            Some(s) => {
                assert(Seq::<(Seq<char>, Seq<char>)>::empty() + s.1 =~= s.1);
            },
        }
    }
    loop
        invariant
            doc@ == body@,
            pos <= i <= doc@.len(),
            parse_attrs(doc@, pos as int) == with_attrs_prefix(
                attrs_view(acc@),
                parse_attrs(doc@, i as int),
            ),
        decreases doc@.len() - i,
    {
        let p = skip_spaces_x(doc, i);
        if p >= doc.len() {
            return None;
        }
        let c = doc[p];
        if c == '>' {
            proof {
                assert(parse_attrs(doc@, i as int) == Some(
                    (p + 1 as int, Seq::<(Seq<char>, Seq<char>)>::empty(), false),
                ));
                assert(attrs_view(acc@) + Seq::<(Seq<char>, Seq<char>)>::empty() =~= attrs_view(
                    acc@,
                ));
            }
            return Some((p + 1, acc, false));
        }
        if c == '/' {
            if doc.len() - p >= 2 && doc[p + 1] == '>' {
                proof {
                    assert(parse_attrs(doc@, i as int) == Some(
                        (p + 2 as int, Seq::<(Seq<char>, Seq<char>)>::empty(), true),
                    ));
                    assert(attrs_view(acc@) + Seq::<(Seq<char>, Seq<char>)>::empty() =~= attrs_view(
                        acc@,
                    ));
                }
                return Some((p + 2, acc, true));
            }
            return None;
        }
        if !is_name_start_x(c) {
            return None;
        }
        let ne = name_end_x(doc, p);
        let q = skip_spaces_x(doc, ne);
        if q >= doc.len() {
            return None;
        }
        if doc[q] != '=' {
            return None;
        }
        let v = skip_spaces_x(doc, q + 1);
        if v >= doc.len() {
            return None;
        }
        let quote = doc[v];
        if quote != '"' && quote != '\'' {
            return None;
        }
        match quote_end_x(doc, v + 1, quote) {
            None => {
                return None;
            },
            Some(e) => {
                let name = substring(body, p, ne);
                let value = substring(body, v + 1, e);
                let ghost acc0 = acc@;
                acc.push(Attribute { name, value });
                proof {
                    assert(attrs_view(acc@) =~= attrs_view(acc0) + seq![
                        (doc@.subrange(p as int, ne as int), doc@.subrange(v + 1 as int, e as int)),
                    ]);
                    match parse_attrs(doc@, e + 1 as int) {
                        None => {},
                        Some(rest) => {
                            assert(attrs_view(acc0) + (seq![
                                (
                                    doc@.subrange(p as int, ne as int),
                                    doc@.subrange(v + 1 as int, e as int),
                                ),
                            ] + rest.1) =~= attrs_view(acc@) + rest.1);
                        },
                    }
                }
                i = e + 1;
            },
        }
    }
}

/// What one executable lookup yields.
enum ScanOut {
    Found(StartTag),
    Absent,
    Malformed,
}

/// The names of the open elements that `st` records, each a range of `doc`.
spec fn stack_names(doc: Seq<char>, st: Seq<(usize, usize)>) -> Seq<Seq<char>> {
    st.map_values(|p: (usize, usize)| doc.subrange(p.0 as int, p.1 as int))
}

/// The executable result `r` agrees with the model's verdict on `doc` and
/// `key`.
spec fn scan_out_ok(doc: Seq<char>, key: Seq<char>, r: ScanOut) -> bool {
    match scan(doc, key) {
        ScanResult::Found { name, attrs } => r matches ScanOut::Found(t) && t.name@ == name
            && attrs_view(t.attributes@) == attrs,
        ScanResult::Absent => r is Absent,
        ScanResult::Malformed => r is Malformed,
    }
}

/// One lookup over the whole document: construct by construct from the
/// start, stopping at the first start tag whose local name equals `key`.
fn scan_doc(body: &str, doc: &Vec<char>, key: &Vec<char>) -> (r: ScanOut)
    requires
        doc@ == body@,
    ensures
        scan_out_ok(doc@, key@, r),
{
    let mut pos: usize = 0;
    let mut stack: Vec<(usize, usize)> = Vec::new();
    proof {
        assert(stack_names(doc@, stack@) =~= Seq::<Seq<char>>::empty());
    }
    loop
        invariant
            doc@ == body@,
            pos <= doc@.len(),
            forall|k: int| 0 <= k < stack@.len() ==> (#[trigger] stack@[k]).0 <= stack@[k].1
                && stack@[k].1 <= doc@.len(),
            scan_from(doc@, key@, pos as int, stack_names(doc@, stack@)) == scan(doc@, key@),
        decreases doc@.len() - pos,
    {
        if pos >= doc.len() {
            if stack.len() == 0 {
                return ScanOut::Absent;
            }
            return ScanOut::Malformed;
        }
        let c = doc[pos];
        if c != '<' {
            pos = pos + 1;
        } else if doc.len() - pos < 2 {
            return ScanOut::Malformed;
        } else {
            let c1 = doc[pos + 1];
            if c1 == '?' {
                match pi_end_x(doc, pos + 2) {
                    None => {
                        return ScanOut::Malformed;
                    },
                    Some(e) => {
                        pos = e;
                    },
                }
            } else if c1 == '!' {
                if doc.len() - pos >= 4 && doc[pos + 2] == '-' && doc[pos + 3] == '-' {
                    match comment_end_x(doc, pos + 4) {
                        None => {
                            return ScanOut::Malformed;
                        },
                        Some(e) => {
                            pos = e;
                        },
                    }
                } else {
                    match gt_end_x(doc, pos + 2) {
                        None => {
                            return ScanOut::Malformed;
                        },
                        Some(e) => {
                            pos = e;
                        },
                    }
                }
            } else if c1 == '/' {
                if doc.len() - pos >= 3 && is_name_start_x(doc[pos + 2]) {
                    let ne = name_end_x(doc, pos + 2);
                    let q = skip_spaces_x(doc, ne);
                    if q < doc.len() && doc[q] == '>' {
                        if stack.len() > 0 {
                            let top = stack[stack.len() - 1];
                            if range_eq_range(doc, top.0, top.1, pos + 2, ne) {
                                let ghost st0 = stack@;
                                stack.pop();
                                proof {
                                    assert(stack_names(doc@, st0).last() == doc@.subrange(
                                        pos + 2 as int,
                                        ne as int,
                                    ));
                                    assert(stack_names(doc@, stack@) =~= stack_names(
                                        doc@,
                                        st0,
                                    ).drop_last());
                                }
                                pos = q + 1;
                            } else {
                                proof {
                                    assert(stack_names(doc@, stack@).last() == doc@.subrange(
                                        stack@.last().0 as int,
                                        stack@.last().1 as int,
                                    ));
                                }
                                return ScanOut::Malformed;
                            }
                        } else {
                            return ScanOut::Malformed;
                        }
                    } else {
                        return ScanOut::Malformed;
                    }
                } else {
                    return ScanOut::Malformed;
                }
            } else if is_name_start_x(c1) {
                let ne = name_end_x(doc, pos + 1);
                proof {
                    lemma_name_end_bounds(doc@, pos + 1 as int);
                }
                match parse_attrs_x(body, doc, ne) {
                    None => {
                        return ScanOut::Malformed;
                    },
                    Some((p2, attrs, selfc)) => {
                        let ls = local_start_x(doc, pos + 1, ne);
                        proof {
                            assert(local_name(doc@.subrange(pos + 1 as int, ne as int))
                                =~= doc@.subrange(ls as int, ne as int));
                        }
                        let is_match = range_eq_vec(doc, ls, ne, key);
                        if is_match {
                            let name = substring(body, pos + 1, ne);
                            return ScanOut::Found(StartTag { name, attributes: attrs });
                        } else if selfc {
                            pos = p2;
                        } else {
                            let ghost st0 = stack@;
                            stack.push((pos + 1, ne));
                            proof {
                                assert(stack_names(doc@, stack@) =~= stack_names(doc@, st0).push(
                                    doc@.subrange(pos + 1 as int, ne as int),
                                ));
                            }
                            pos = p2;
                        }
                    },
                }
            } else {
                return ScanOut::Malformed;
            }
        }
    }
}

/// The error that a lookup surfaces for a verdict other than `Found`.
pub open spec fn lookup_err(s: ScanResult) -> SpeedtestError {
    if s is Absent {
        SpeedtestError::XmlParse(XmlFault::ElementNotFound)
    } else {
        SpeedtestError::XmlParse(XmlFault::Malformed)
    }
}

/// The contract of [`XmlParser::find_key`]: the result follows the model's
/// verdict on the document and the key.
pub open spec fn find_key_ok(doc: Seq<char>, key: Seq<char>, r: Result<StartTag, SpeedtestError>) -> bool {
    match scan(doc, key) {
        ScanResult::Found { name, attrs } => r matches Ok(t) && t.name@ == name && attrs_view(
            t.attributes@,
        ) == attrs,
        ScanResult::Absent => r == Err::<StartTag, SpeedtestError>(
            SpeedtestError::XmlParse(XmlFault::ElementNotFound),
        ),
        ScanResult::Malformed => r == Err::<StartTag, SpeedtestError>(
            SpeedtestError::XmlParse(XmlFault::Malformed),
        ),
    }
}

/// The contract of [`XmlParser::find_key_attrs`]: the attributes of the
/// first start tag whose local name equals the key, or the error that the
/// model's verdict dictates.
pub open spec fn find_attrs_ok(
    doc: Seq<char>,
    key: Seq<char>,
    r: Result<Vec<Attribute>, SpeedtestError>,
) -> bool {
    match scan(doc, key) {
        ScanResult::Found { name, attrs } => r matches Ok(a) && attrs_view(a@) == attrs,
        ScanResult::Absent => r == Err::<Vec<Attribute>, SpeedtestError>(
            SpeedtestError::XmlParse(XmlFault::ElementNotFound),
        ),
        ScanResult::Malformed => r == Err::<Vec<Attribute>, SpeedtestError>(
            SpeedtestError::XmlParse(XmlFault::Malformed),
        ),
    }
}

/// A stateless element lookup over one XML document.
///
/// Each lookup parses the document from the beginning; no parser position
/// is shared between lookups, so a lookup is a pure function of the
/// document text and the key.
pub struct XmlParser {
    body: String,
}

impl View for XmlParser {
    type V = Seq<char>;

    closed spec fn view(&self) -> Seq<char> {
        self.body@
    }
}

impl XmlParser {
    /// A parser over the given document text.
    pub fn new(data: String) -> (p: XmlParser)
        ensures
            p@ == data@,
    {
        XmlParser { body: data }
    }

    /// The first start-element event whose local name equals `key`, with
    /// its full name and its attributes in document order.  Fails with
    /// `XmlParse(Malformed)` on malformed markup before any such event and
    /// with `XmlParse(ElementNotFound)` where the document is well-formed
    /// but holds no such element; no other error kind can come out.
    pub fn find_key(&self, key: &str) -> (r: Result<StartTag, SpeedtestError>)
        ensures
            find_key_ok(self@, key@, r),
    {
        let doc = to_chars(self.body.as_str());
        let keyv = to_chars(key);
        match scan_doc(self.body.as_str(), &doc, &keyv) {
            ScanOut::Found(t) => Ok(t),
            ScanOut::Absent => Err(SpeedtestError::XmlParse(XmlFault::ElementNotFound)),
            ScanOut::Malformed => Err(SpeedtestError::XmlParse(XmlFault::Malformed)),
        }
    }

    /// The attribute list of the first start-element event whose local
    /// name equals `key`, in document order, duplicates kept.  The errors
    /// are those of [`XmlParser::find_key`].
    pub fn find_key_attrs(&self, key: &str) -> (r: Result<Vec<Attribute>, SpeedtestError>)
        ensures
            find_attrs_ok(self@, key@, r),
    {
        match self.find_key(key) {
            Ok(t) => Ok(t.attributes),
            Err(e) => Err(e),
        }
    }
}

} // verus!
