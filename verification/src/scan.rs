//! A mathematical model of the XML event scan.
//!
//! The document is a sequence of characters; the model walks it from the
//! start, construct by construct, until a start tag whose local name equals
//! the requested key appears.  The model is the single source of truth for
//! the executable scanner's contracts: `scan` says, for every document and
//! key, whether the lookup finds the element (and with which attributes, in
//! document order), runs off a well-formed document without finding it, or
//! stumbles over malformed markup.
//!
//! The grammar covered: character data, processing instructions `<?..?>`,
//! comments `<!--..-->`, other declarations `<!..>`, start tags with
//! double- or single-quoted attribute values, self-closing tags, and end
//! tags.  End tags must match the innermost open start tag, and a document
//! that ends with tags still open is malformed.  Attribute values are kept
//! exactly as written; character references are not expanded.  Element and
//! attribute names are ASCII name characters; a qualified name matches the
//! key by its local part, the piece after the last colon.

use vstd::prelude::*;

verus! {

/// The whitespace characters that XML allows between tokens.
pub open spec fn is_space(c: char) -> bool {
    c == ' ' || c == '\n' || c == '\t' || c == '\r'
}

/// The characters that may open an element or attribute name.
pub open spec fn is_name_start(c: char) -> bool {
    (65 <= c as u32 && c as u32 <= 90)  // 'A'..='Z'
    || (97 <= c as u32 && c as u32 <= 122)  // 'a'..='z'
    || c == '_' || c == ':'
}

/// The characters that may continue an element or attribute name.
pub open spec fn is_name_char(c: char) -> bool {
    is_name_start(c) || (48 <= c as u32 && c as u32 <= 57)  // '0'..='9'
    || c == '-' || c == '.'
}

/// The first position at or after `pos` holding a non-space character, or
/// the end of the document.
pub open spec fn skip_spaces(doc: Seq<char>, pos: int) -> int
    decreases doc.len() - pos,
{
    if pos < doc.len() && is_space(doc[pos]) {
        skip_spaces(doc, pos + 1)
    } else {
        pos
    }
}

pub proof fn lemma_skip_spaces_bounds(doc: Seq<char>, pos: int)
    ensures
        pos <= skip_spaces(doc, pos),
        pos <= doc.len() ==> skip_spaces(doc, pos) <= doc.len(),
    decreases doc.len() - pos,
{
    if pos < doc.len() && is_space(doc[pos]) {
        lemma_skip_spaces_bounds(doc, pos + 1);
    }
}

/// The end of the run of name characters starting at `pos`.
pub open spec fn name_end(doc: Seq<char>, pos: int) -> int
    decreases doc.len() - pos,
{
    if pos < doc.len() && is_name_char(doc[pos]) {
        name_end(doc, pos + 1)
    } else {
        pos
    }
}

pub proof fn lemma_name_end_bounds(doc: Seq<char>, pos: int)
    ensures
        pos <= name_end(doc, pos),
        pos <= doc.len() ==> name_end(doc, pos) <= doc.len(),
        pos < doc.len() && is_name_char(doc[pos]) ==> pos + 1 <= name_end(doc, pos),
    decreases doc.len() - pos,
{
    if pos < doc.len() && is_name_char(doc[pos]) {
        lemma_name_end_bounds(doc, pos + 1);
    }
}

/// The position just past the first `?>` at or after `pos`, if any.
pub open spec fn pi_end(doc: Seq<char>, pos: int) -> Option<int>
    decreases doc.len() - pos,
{
    if pos + 2 > doc.len() {
        None
    } else if doc[pos] == '?' && doc[pos + 1] == '>' {
        Some(pos + 2)
    } else {
        pi_end(doc, pos + 1)
    }
}

pub proof fn lemma_pi_end_bounds(doc: Seq<char>, pos: int)
    ensures
        pi_end(doc, pos) matches Some(e) ==> pos + 2 <= e <= doc.len(),
    decreases doc.len() - pos,
{
    if pos + 2 <= doc.len() && !(doc[pos] == '?' && doc[pos + 1] == '>') {
        lemma_pi_end_bounds(doc, pos + 1);
    }
}

/// The position just past the first `-->` at or after `pos`, if any.
pub open spec fn comment_end(doc: Seq<char>, pos: int) -> Option<int>
    decreases doc.len() - pos,
{
    if pos + 3 > doc.len() {
        None
    } else if doc[pos] == '-' && doc[pos + 1] == '-' && doc[pos + 2] == '>' {
        Some(pos + 3)
    } else {
        comment_end(doc, pos + 1)
    }
}

pub proof fn lemma_comment_end_bounds(doc: Seq<char>, pos: int)
    ensures
        comment_end(doc, pos) matches Some(e) ==> pos + 3 <= e <= doc.len(),
    decreases doc.len() - pos,
{
    if pos + 3 <= doc.len() && !(doc[pos] == '-' && doc[pos + 1] == '-' && doc[pos + 2] == '>') {
        lemma_comment_end_bounds(doc, pos + 1);
    }
}

/// The position just past the first `>` at or after `pos`, if any.
pub open spec fn gt_end(doc: Seq<char>, pos: int) -> Option<int>
    decreases doc.len() - pos,
{
    if pos >= doc.len() {
        None
    } else if doc[pos] == '>' {
        Some(pos + 1)
    } else {
        gt_end(doc, pos + 1)
    }
}

pub proof fn lemma_gt_end_bounds(doc: Seq<char>, pos: int)
    ensures
        gt_end(doc, pos) matches Some(e) ==> pos + 1 <= e <= doc.len(),
    decreases doc.len() - pos,
{
    if pos < doc.len() && doc[pos] != '>' {
        lemma_gt_end_bounds(doc, pos + 1);
    }
}

/// The position of the first occurrence of the quote `q` at or after `pos`,
/// if any.
pub open spec fn quote_end(doc: Seq<char>, pos: int, q: char) -> Option<int>
    decreases doc.len() - pos,
{
    if pos >= doc.len() {
        None
    } else if doc[pos] == q {
        Some(pos)
    } else {
        quote_end(doc, pos + 1, q)
    }
}

pub proof fn lemma_quote_end_bounds(doc: Seq<char>, pos: int, q: char)
    ensures
        quote_end(doc, pos, q) matches Some(i) ==> pos <= i < doc.len(),
    decreases doc.len() - pos,
{
    if pos < doc.len() && doc[pos] != q {
        lemma_quote_end_bounds(doc, pos + 1, q);
    }
}

/// The start of the local part of the name `n[0..i]`: the position just
/// after the last colon before `i`, or `0` where there is none.
pub open spec fn local_start(n: Seq<char>, i: int) -> int
    decreases i,
{
    if i <= 0 {
        0
    } else if n[i - 1] == ':' {
        i
    } else {
        local_start(n, i - 1)
    }
}

pub proof fn lemma_local_start_bounds(n: Seq<char>, i: int)
    ensures
        0 <= local_start(n, i),
        0 <= i ==> local_start(n, i) <= i,
    decreases i,
{
    if i > 0 && n[i - 1] != ':' {
        lemma_local_start_bounds(n, i - 1);
    }
}

/// The local part of a possibly qualified name: the piece after the last
/// colon, or the whole name where there is no colon.
pub open spec fn local_name(n: Seq<char>) -> Seq<char> {
    n.subrange(local_start(n, n.len() as int), n.len() as int)
}

/// The attribute list of a tag, scanned from just after the tag name.
/// `Some((next, attrs, self_closing))` means the tag closes well: `next` is
/// the position just past `>`, `attrs` the (name, value) pairs in document
/// order, duplicates kept, and `self_closing` whether the tag ends `/>`.
/// `None` means the tag is malformed (bad attribute syntax, an unterminated
/// value, or a document that ends inside the tag).
pub open spec fn parse_attrs(doc: Seq<char>, pos: int) -> Option<(int, Seq<(Seq<char>, Seq<char>)>, bool)>
    decreases doc.len() - pos,
{
    let p = skip_spaces(doc, pos);
    if p >= doc.len() {
        None
    } else if doc[p] == '>' {
        Some((p + 1, Seq::empty(), false))
    } else if doc[p] == '/' {
        if p + 2 <= doc.len() && doc[p + 1] == '>' {
            Some((p + 2, Seq::empty(), true))
        } else {
            None
        }
    } else if is_name_start(doc[p]) {
        let ne = name_end(doc, p);
        let q = skip_spaces(doc, ne);
        if q >= doc.len() || doc[q] != '=' {
            None
        } else {
            let v = skip_spaces(doc, q + 1);
            if v >= doc.len() || (doc[v] != '"' && doc[v] != '\'') {
                None
            } else {
                match quote_end(doc, v + 1, doc[v]) {
                    None => None,
                    Some(e) => {
                        proof {
                            lemma_skip_spaces_bounds(doc, pos);
                            lemma_name_end_bounds(doc, p);
                            lemma_skip_spaces_bounds(doc, ne);
                            lemma_skip_spaces_bounds(doc, q + 1);
                            lemma_quote_end_bounds(doc, v + 1, doc[v]);
                        }
                        match parse_attrs(doc, e + 1) {
                            None => None,
                            Some(rest) => Some(
                                (rest.0, seq![(doc.subrange(p, ne), doc.subrange(v + 1, e))] + rest.1, rest.2),
                            ),
                        }
                    },
                }
            }
        }
    } else {
        None
    }
}

pub proof fn lemma_parse_attrs_bounds(doc: Seq<char>, pos: int)
    ensures
        parse_attrs(doc, pos) matches Some(r) ==> pos < r.0 <= doc.len(),
    decreases doc.len() - pos,
{
    let p = skip_spaces(doc, pos);
    lemma_skip_spaces_bounds(doc, pos);
    if p < doc.len() && doc[p] != '>' && doc[p] != '/' && is_name_start(doc[p]) {
        let ne = name_end(doc, p);
        let q = skip_spaces(doc, ne);
        lemma_name_end_bounds(doc, p);
        lemma_skip_spaces_bounds(doc, ne);
        if !(q >= doc.len() || doc[q] != '=') {
            let v = skip_spaces(doc, q + 1);
            lemma_skip_spaces_bounds(doc, q + 1);
            if !(v >= doc.len() || (doc[v] != '"' && doc[v] != '\'')) {
                match quote_end(doc, v + 1, doc[v]) {
                    None => {},
                    Some(e) => {
                        lemma_quote_end_bounds(doc, v + 1, doc[v]);
                        lemma_parse_attrs_bounds(doc, e + 1);
                    },
                }
            }
        }
    }
}

/// What one element lookup yields over a whole document.
pub enum ScanResult {
    /// A start tag whose local name equals the key, with its full name and
    /// its attributes, in document order, duplicates kept.
    Found { name: Seq<char>, attrs: Seq<(Seq<char>, Seq<char>)> },
    /// The document is well-formed markup but no such start tag occurs.
    Absent,
    /// The scan hit malformed markup before any such start tag.
    Malformed,
}

/// The scan from `pos` with the names of the currently open elements on
/// `open_tags`, innermost last.  One construct is consumed per step; the
/// scan stops at the first start tag whose local name equals `key`, without
/// requiring a matching end tag and without reading past it.
pub open spec fn scan_from(doc: Seq<char>, key: Seq<char>, pos: int, open_tags: Seq<Seq<char>>) -> ScanResult
    decreases doc.len() - pos,
{
    if pos >= doc.len() {
        if open_tags.len() == 0 {
            ScanResult::Absent
        } else {
            ScanResult::Malformed
        }
    } else if doc[pos] != '<' {
        scan_from(doc, key, pos + 1, open_tags)
    } else if pos + 1 >= doc.len() {
        ScanResult::Malformed
    } else if doc[pos + 1] == '?' {
        match pi_end(doc, pos + 2) {
            None => ScanResult::Malformed,
            Some(e) => {
                proof {
                    lemma_pi_end_bounds(doc, pos + 2);
                }
                scan_from(doc, key, e, open_tags)
            },
        }
    } else if doc[pos + 1] == '!' {
        if pos + 4 <= doc.len() && doc[pos + 2] == '-' && doc[pos + 3] == '-' {
            match comment_end(doc, pos + 4) {
                None => ScanResult::Malformed,
                Some(e) => {
                    proof {
                        lemma_comment_end_bounds(doc, pos + 4);
                    }
                    scan_from(doc, key, e, open_tags)
                },
            }
        } else {
            match gt_end(doc, pos + 2) {
                None => ScanResult::Malformed,
                Some(e) => {
                    proof {
                        lemma_gt_end_bounds(doc, pos + 2);
                    }
                    scan_from(doc, key, e, open_tags)
                },
            }
        }
    } else if doc[pos + 1] == '/' {
        if pos + 2 < doc.len() && is_name_start(doc[pos + 2]) {
            let ne = name_end(doc, pos + 2);
            let q = skip_spaces(doc, ne);
            if q < doc.len() && doc[q] == '>' {
                if open_tags.len() > 0 && open_tags.last() == doc.subrange(pos + 2, ne) {
                    proof {
                        lemma_name_end_bounds(doc, pos + 2);
                        lemma_skip_spaces_bounds(doc, ne);
                    }
                    scan_from(doc, key, q + 1, open_tags.drop_last())
                } else {
                    ScanResult::Malformed
                }
            } else {
                ScanResult::Malformed
            }
        } else {
            ScanResult::Malformed
        }
    } else if is_name_start(doc[pos + 1]) {
        let ne = name_end(doc, pos + 1);
        match parse_attrs(doc, ne) {
            None => ScanResult::Malformed,
            Some(r) => {
                if local_name(doc.subrange(pos + 1, ne)) == key {
                    ScanResult::Found { name: doc.subrange(pos + 1, ne), attrs: r.1 }
                } else {
                    proof {
                        lemma_name_end_bounds(doc, pos + 1);
                        lemma_parse_attrs_bounds(doc, ne);
                    }
                    if r.2 {
                        scan_from(doc, key, r.0, open_tags)
                    } else {
                        scan_from(doc, key, r.0, open_tags.push(doc.subrange(pos + 1, ne)))
                    }
                }
            },
        }
    } else {
        ScanResult::Malformed
    }
}

/// One element lookup over a whole document: the scan from the start with
/// no open elements.
pub open spec fn scan(doc: Seq<char>, key: Seq<char>) -> ScanResult {
    scan_from(doc, key, 0, Seq::empty())
}

/// The attribute list of a `Found` verdict.
pub open spec fn found_attrs(s: ScanResult) -> Seq<(Seq<char>, Seq<char>)> {
    match s {
        ScanResult::Found { name, attrs } => attrs,
        _ => arbitrary(),
    }
}

} // verus!
