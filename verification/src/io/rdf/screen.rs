//! Screening documents before they are handed to the outside parser.
//!
//! The outside parser of RDF/XML does not return on every document. It stops
//! on an element inside an XML literal, and on an empty element that follows
//! one with content in a collection. It keeps a stack of the nodes and
//! properties that are open, and takes one too many from it after a property
//! with content that has an identifier, a resource of its own or property
//! attributes. It cuts names and IRIs at positions that are counted in
//! characters, which goes wrong outside ASCII.
//!
//! The screen reads a document as text and tags, and admits the documents
//! that stay clear of all of these. The text between two tags may hold any
//! byte but `<`. A tag is plain ASCII without character references; it holds
//! no quoted word `Literal` or `Resource`; after a quoted word `Collection` in
//! it nothing but empty elements follows up to the next end tag. There is one
//! root element `rdf:RDF` that binds the prefix `rdf`, which no other element
//! binds again; below it nodes and properties in turn, where the start tag of
//! a property with content has no attribute but `rdf:datatype`,
//! `rdf:parseType` and those whose names start with `xml`; comments without
//! `>` inside, and no other markup declaration.
//!
//! The quoted words are refused whatever attribute they are the value of: the
//! outside parser finds `rdf:parseType` by the IRI that a name expands to, so
//! the name as it is written does not tell.

use vstd::prelude::*;

verus! {

/// The bytes of the word `Literal`.
pub open spec fn word_literal() -> Seq<u8> {
    seq![76u8, 105u8, 116u8, 101u8, 114u8, 97u8, 108u8]
}

/// The bytes of the word `Collection`.
pub open spec fn word_collection() -> Seq<u8> {
    seq![67u8, 111u8, 108u8, 108u8, 101u8, 99u8, 116u8, 105u8, 111u8, 110u8]
}

/// Whether the byte is a quotation mark, single or double.
pub open spec fn is_quote(b: u8) -> bool {
    b == 34 || b == 39
}

/// Whether the word `w` stands at position `i`.
pub open spec fn has_at(s: Seq<u8>, i: int, w: Seq<u8>) -> bool {
    0 <= i && i + w.len() <= s.len() && s.subrange(i, i + w.len()) == w
}

/// Whether the word `w` stands between two quotation marks, the first at
/// position `i`.
pub open spec fn quoted_at(s: Seq<u8>, i: int, w: Seq<u8>) -> bool {
    0 <= i && i + w.len() + 2 <= s.len() && is_quote(s[i]) && has_at(s, i + 1, w) && is_quote(
        s[i + 1 + w.len()],
    )
}

/// Whether a character reference starts at position `i`: `&#`.
pub open spec fn reference_at(s: Seq<u8>, i: int) -> bool {
    0 <= i && i + 2 <= s.len() && s[i] == 38 && s[i + 1] == 35
}

/// Whether position `k` of a tag is clear: the byte is ASCII, and there starts
/// no character reference and no quoted word `Literal` or `Resource`; where a
/// quoted word `Collection` starts, a flat collection follows.
pub open spec fn clear_at(s: Seq<u8>, k: int) -> bool {
    &&& s[k] < 128
    &&& !reference_at(s, k)
    &&& !quoted_at(s, k, word_literal())
    &&& !quoted_at(s, k, word_resource())
    &&& quoted_at(s, k, word_collection()) ==> flat_collection(s, k + 12)
}

/// Whether every position of the tag from `i` to `j` is clear.
pub open spec fn clear(s: Seq<u8>, i: int, j: int) -> bool {
    forall|k: int| i <= k <= j && 0 <= k < s.len() ==> #[trigger] clear_at(s, k)
}

/// The position of the `>` that closes the tag read from position `i` on. A
/// quotation mark opens a value that ends at the next mark of the same kind;
/// `q` is the mark of the value that is open, or 0. A `>` inside a value does
/// not close the tag.
pub open spec fn tag_close(s: Seq<u8>, i: int, q: u8) -> Option<int>
    decreases s.len() - i,
{
    if i < 0 || i >= s.len() {
        None
    } else if q == 0 {
        if s[i] == 62 {
            Some(i)
        } else if is_quote(s[i]) {
            tag_close(s, i + 1, s[i])
        } else {
            tag_close(s, i + 1, 0)
        }
    } else if s[i] == q {
        tag_close(s, i + 1, 0)
    } else {
        tag_close(s, i + 1, q)
    }
}

/// Whether every tag from position `i` up to the next end tag is that of an
/// empty element, closed by `/>`. A comment, a processing instruction, a
/// marked section and a tag that is not closed are refused.
pub open spec fn only_empty_elements(s: Seq<u8>, i: int) -> bool
    decreases s.len() - i,
{
    if i < 0 || i >= s.len() {
        true
    } else if s[i] != 60 {
        only_empty_elements(s, i + 1)
    } else if i + 1 >= s.len() {
        true
    } else if s[i + 1] == 47 {
        true
    } else if s[i + 1] == 33 || s[i + 1] == 63 {
        false
    } else {
        match tag_close(s, i + 1, 0) {
            Some(j) => if i < j && j < s.len() && s[j - 1] == 47 {
                only_empty_elements(s, j + 1)
            } else {
                false
            },
            None => false,
        }
    }
}

/// Whether the collection whose attribute ends before position `i` holds
/// nothing but empty elements: the tag with the attribute is closed, and is
/// itself that of an empty element or is followed by empty elements only.
pub open spec fn flat_collection(s: Seq<u8>, i: int) -> bool {
    match tag_close(s, i, 0) {
        Some(j) => 0 < j && j < s.len() && (s[j - 1] == 47 || only_empty_elements(s, j + 1)),
        None => false,
    }
}

/// The bytes of the word `Resource`.
pub open spec fn word_resource() -> Seq<u8> {
    seq![82u8, 101u8, 115u8, 111u8, 117u8, 114u8, 99u8, 101u8]
}

/// The bytes that open a comment.
pub open spec fn word_comment() -> Seq<u8> {
    seq![60u8, 33u8, 45u8, 45u8]
}

/// The bytes of the name of the root element.
pub open spec fn word_root() -> Seq<u8> {
    seq![114u8, 100u8, 102u8, 58u8, 82u8, 68u8, 70u8]
}

/// The bytes of the attribute that binds the prefix `rdf`.
pub open spec fn word_prefix() -> Seq<u8> {
    seq![120u8, 109u8, 108u8, 110u8, 115u8, 58u8, 114u8, 100u8, 102u8]
}

/// The bytes that bind the prefix `rdf` to the namespace of RDF.
pub open spec fn word_binding() -> Seq<u8> {
    seq![
        120u8, 109u8, 108u8, 110u8, 115u8, 58u8, 114u8, 100u8, 102u8, 61u8, 34u8, 104u8, 116u8,
        116u8, 112u8, 58u8, 47u8, 47u8, 119u8, 119u8, 119u8, 46u8, 119u8, 51u8, 46u8, 111u8,
        114u8, 103u8, 47u8, 49u8, 57u8, 57u8, 57u8, 47u8, 48u8, 50u8, 47u8, 50u8, 50u8, 45u8,
        114u8, 100u8, 102u8, 45u8, 115u8, 121u8, 110u8, 116u8, 97u8, 120u8, 45u8, 110u8, 115u8,
        35u8, 34u8,
    ]
}

/// The bytes of the attribute `rdf:datatype`.
pub open spec fn word_datatype() -> Seq<u8> {
    seq![114u8, 100u8, 102u8, 58u8, 100u8, 97u8, 116u8, 97u8, 116u8, 121u8, 112u8, 101u8]
}

/// The bytes of the attribute `rdf:parseType`.
pub open spec fn word_parse_type() -> Seq<u8> {
    seq![114u8, 100u8, 102u8, 58u8, 112u8, 97u8, 114u8, 115u8, 101u8, 84u8, 121u8, 112u8, 101u8]
}

/// The bytes of the word `Resource`.
pub fn bytes_resource() -> (r: Vec<u8>)
    ensures
        r@ == word_resource(),
{
    let r: Vec<u8> =
        vec![82u8, 101u8, 115u8, 111u8, 117u8, 114u8, 99u8, 101u8];
    assert(r@ =~= word_resource());
    r
}

/// The bytes that open a comment.
pub fn bytes_comment() -> (r: Vec<u8>)
    ensures
        r@ == word_comment(),
{
    let r: Vec<u8> =
        vec![60u8, 33u8, 45u8, 45u8];
    assert(r@ =~= word_comment());
    r
}

/// The bytes of the name of the root element.
pub fn bytes_root() -> (r: Vec<u8>)
    ensures
        r@ == word_root(),
{
    let r: Vec<u8> =
        vec![114u8, 100u8, 102u8, 58u8, 82u8, 68u8, 70u8];
    assert(r@ =~= word_root());
    r
}

/// The bytes of the attribute that binds the prefix `rdf`.
pub fn bytes_prefix() -> (r: Vec<u8>)
    ensures
        r@ == word_prefix(),
{
    let r: Vec<u8> =
        vec![120u8, 109u8, 108u8, 110u8, 115u8, 58u8, 114u8, 100u8, 102u8];
    assert(r@ =~= word_prefix());
    r
}

/// The bytes that bind the prefix `rdf` to the namespace of RDF.
pub fn bytes_binding() -> (r: Vec<u8>)
    ensures
        r@ == word_binding(),
{
    let r: Vec<u8> =
        vec![
            120u8, 109u8, 108u8, 110u8, 115u8, 58u8, 114u8, 100u8, 102u8, 61u8, 34u8, 104u8,
            116u8, 116u8, 112u8, 58u8, 47u8, 47u8, 119u8, 119u8, 119u8, 46u8, 119u8, 51u8,
            46u8, 111u8, 114u8, 103u8, 47u8, 49u8, 57u8, 57u8, 57u8, 47u8, 48u8, 50u8, 47u8,
            50u8, 50u8, 45u8, 114u8, 100u8, 102u8, 45u8, 115u8, 121u8, 110u8, 116u8, 97u8,
            120u8, 45u8, 110u8, 115u8, 35u8, 34u8,
        ];
    assert(r@ =~= word_binding());
    r
}

/// The bytes of the attribute `rdf:datatype`.
pub fn bytes_datatype() -> (r: Vec<u8>)
    ensures
        r@ == word_datatype(),
{
    let r: Vec<u8> =
        vec![114u8, 100u8, 102u8, 58u8, 100u8, 97u8, 116u8, 97u8, 116u8, 121u8, 112u8, 101u8];
    assert(r@ =~= word_datatype());
    r
}

/// The bytes of the attribute `rdf:parseType`.
pub fn bytes_parse_type() -> (r: Vec<u8>)
    ensures
        r@ == word_parse_type(),
{
    let r: Vec<u8> =
        vec![
            114u8, 100u8, 102u8, 58u8, 112u8, 97u8, 114u8, 115u8, 101u8, 84u8, 121u8, 112u8,
            101u8,
        ];
    assert(r@ =~= word_parse_type());
    r
}

/// The bytes of the word `Literal`.
pub fn bytes_literal() -> (r: Vec<u8>)
    ensures
        r@ == word_literal(),
{
    let r: Vec<u8> =
        vec![76u8, 105u8, 116u8, 101u8, 114u8, 97u8, 108u8];
    assert(r@ =~= word_literal());
    r
}

/// The bytes of the word `Collection`.
pub fn bytes_collection() -> (r: Vec<u8>)
    ensures
        r@ == word_collection(),
{
    let r: Vec<u8> =
        vec![67u8, 111u8, 108u8, 108u8, 101u8, 99u8, 116u8, 105u8, 111u8, 110u8];
    assert(r@ =~= word_collection());
    r
}

/// Whether the byte is white space.
pub open spec fn is_space(b: u8) -> bool {
    b == 32 || b == 9 || b == 10 || b == 13
}

/// The position of the next `>` from position `i` on, whatever stands before it.
pub open spec fn next_gt(s: Seq<u8>, i: int) -> Option<int>
    decreases s.len() - i,
{
    if i < 0 || i >= s.len() {
        None
    } else if s[i] == 62 {
        Some(i)
    } else {
        next_gt(s, i + 1)
    }
}

/// Whether the byte may stand in a name.
pub open spec fn is_name_byte(b: u8) -> bool {
    (48 <= b <= 58) || (65 <= b <= 90) || (97 <= b <= 122) || b == 45 || b == 46 || b == 95
}

/// Whether the attribute that binds the prefix `rdf` stands at position `p`:
/// the name `xmlns:rdf`, and no longer name.
pub open spec fn binds_at(s: Seq<u8>, p: int) -> bool {
    has_at(s, p, word_prefix()) && (p + 9 >= s.len() || !is_name_byte(s[p + 9]))
}

/// The first position from `a` on, and before `b`, at which the prefix `rdf`
/// is bound.
pub open spec fn first_binding(s: Seq<u8>, a: int, b: int) -> Option<int>
    decreases b - a,
{
    if a < 0 || a >= b {
        None
    } else if binds_at(s, a) {
        Some(a)
    } else {
        first_binding(s, a + 1, b)
    }
}

/// Whether a name may stand as the key of an attribute of an element that
/// holds a literal or nodes: `rdf:datatype`, `rdf:parseType`, or a name that
/// starts with `xml`.
pub open spec fn allowed_key(w: Seq<u8>) -> bool {
    w == word_datatype() || w == word_parse_type() || (w.len() >= 3 && w[0] == 120 && w[1] == 109
        && w[2] == 108)
}

/// Whether every attribute of the tag, read from position `k` to its end at
/// `end`, has an allowed key. `q` is the quotation mark of the value that is
/// open, or 0; `key` is where the name that is being read started.
pub open spec fn keys_allowed(s: Seq<u8>, k: int, end: int, q: u8, key: int) -> bool
    decreases end - k,
{
    if k < 0 || k >= end || end > s.len() || key < 0 || key > k {
        true
    } else if q != 0 {
        if s[k] == q {
            keys_allowed(s, k + 1, end, 0, k + 1)
        } else {
            keys_allowed(s, k + 1, end, q, key)
        }
    } else if is_quote(s[k]) {
        keys_allowed(s, k + 1, end, s[k], key)
    } else if is_space(s[k]) {
        keys_allowed(s, k + 1, end, 0, k + 1)
    } else if s[k] == 61 {
        if allowed_key(s.subrange(key, k)) {
            keys_allowed(s, k + 1, end, 0, k + 1)
        } else {
            false
        }
    } else {
        keys_allowed(s, k + 1, end, 0, key)
    }
}

/// Whether the tag from `i` to its end at `j` is that of the root: the name
/// `rdf:RDF`, and the prefix `rdf` bound once, to the namespace of RDF.
pub open spec fn root_tag(s: Seq<u8>, i: int, j: int) -> bool {
    &&& has_at(s, i + 1, word_root())
    &&& i + 8 < j
    &&& is_space(s[i + 8])
    &&& match first_binding(s, i, j) {
        Some(p) => has_at(s, p, word_binding()) && p + word_binding().len() <= j
            && first_binding(s, p + 1, j) is None,
        None => false,
    }
}

/// Whether the tag from `i` to its end at `j` may stand where `depth` elements
/// are open. The first element is the root. No other element binds the prefix
/// `rdf`. Elements alternate between nodes and properties; the start tag of a
/// property with content carries allowed attributes only.
pub open spec fn tag_allowed(s: Seq<u8>, i: int, j: int, depth: nat, rooted: bool) -> bool {
    if depth == 0 {
        !rooted && root_tag(s, i, j)
    } else {
        first_binding(s, i, j) is None && (depth % 2 == 0 && s[j - 1] != 47
            ==> keys_allowed(s, i + 1, j, 0, i + 1))
    }
}

/// Whether the document from position `i` on keeps to the layers of RDF/XML,
/// where `depth` elements are open and `rooted` tells whether the root was seen.
/// A processing instruction ends at the next `>`; a comment ends at the next
/// `>` and has `--` before it; no other markup declaration is read; an end tag
/// closes an open element. Every tag is clear; what stands between two tags is
/// text, and may hold any byte but `<`.
pub open spec fn striped(s: Seq<u8>, i: int, depth: nat, rooted: bool) -> bool
    decreases s.len() - i,
{
    if i < 0 || i >= s.len() {
        true
    } else if s[i] != 60 {
        striped(s, i + 1, depth, rooted)
    } else if i + 1 >= s.len() {
        true
    } else if s[i + 1] == 63 {
        match next_gt(s, i + 2) {
            Some(j) => if i < j && j < s.len() && clear(s, i, j) {
                striped(s, j + 1, depth, rooted)
            } else {
                false
            },
            None => false,
        }
    } else if s[i + 1] == 33 {
        match next_gt(s, i + 2) {
            Some(j) => if has_at(s, i, word_comment()) && i + 6 <= j && j < s.len() && s[j - 1]
                == 45 && s[j - 2] == 45 && clear(s, i, j) {
                striped(s, j + 1, depth, rooted)
            } else {
                false
            },
            None => false,
        }
    } else if s[i + 1] == 47 {
        match next_gt(s, i + 2) {
            Some(j) => if i < j && j < s.len() && depth > 0 && clear(s, i, j) {
                striped(s, j + 1, (depth - 1) as nat, rooted)
            } else {
                false
            },
            None => false,
        }
    } else {
        match tag_close(s, i + 1, 0) {
            Some(j) => if i < j && j < s.len() && clear(s, i, j) && tag_allowed(
                s,
                i,
                j,
                depth,
                rooted,
            ) {
                if s[j - 1] == 47 {
                    striped(s, j + 1, depth, true)
                } else {
                    striped(s, j + 1, depth + 1, true)
                }
            } else {
                false
            },
            None => false,
        }
    }
}

/// The position of the next `>` from position `from` on.
pub fn find_next_gt(s: &[u8], from: usize) -> (r: Option<usize>)
    ensures
        match r {
            Some(j) => next_gt(s@, from as int) == Some(j as int) && from <= j < s.len(),
            None => next_gt(s@, from as int) is None,
        },
{
    let mut i: usize = from;
    while i < s.len()
        invariant
            from <= i,
            next_gt(s@, from as int) == next_gt(s@, i as int),
        decreases s.len() - i,
    {
        if s[i] == 62 {
            return Some(i);
        }
        i += 1;
    }
    None
}

/// The first position from `a` on, and before `b`, at which the prefix `rdf`
/// is bound.
pub fn find_first_binding(s: &[u8], a: usize, b: usize) -> (r: Option<usize>)
    requires
        b <= s.len(),
    ensures
        match r {
            Some(p) => first_binding(s@, a as int, b as int) == Some(p as int) && a <= p < b,
            None => first_binding(s@, a as int, b as int) is None,
        },
{
    let prefix = bytes_prefix();
    let mut k: usize = a;
    while k < b
        invariant
            a <= k,
            b <= s.len(),
            prefix@ == word_prefix(),
            first_binding(s@, a as int, b as int) == first_binding(s@, k as int, b as int),
        decreases b - k,
    {
        if word_at(s, k, &prefix) {
            let after = k + 9;
            let bound = if after >= s.len() {
                true
            } else {
                let c = s[after];
                !((48 <= c && c <= 58) || (65 <= c && c <= 90) || (97 <= c && c <= 122) || c == 45
                    || c == 46 || c == 95)
            };
            if bound {
                return Some(k);
            }
        }
        k += 1;
    }
    None
}

/// Whether the name from `key` to `k` is an allowed key.
pub fn is_allowed_key(s: &[u8], key: usize, k: usize) -> (r: bool)
    requires
        key <= k <= s.len(),
    ensures
        r == allowed_key(s@.subrange(key as int, k as int)),
{
    let ghost w = s@.subrange(key as int, k as int);
    let datatype = bytes_datatype();
    let parse_type = bytes_parse_type();
    if k - key == datatype.len() && word_at(s, key, &datatype) {
        assert(w =~= word_datatype());
        return true;
    }
    if k - key == parse_type.len() && word_at(s, key, &parse_type) {
        assert(w =~= word_parse_type());
        return true;
    }
    assert(w != word_datatype()) by {
        if w == word_datatype() {
            assert(s@.subrange(key as int, key + word_datatype().len()) =~= w);
        }
    }
    assert(w != word_parse_type()) by {
        if w == word_parse_type() {
            assert(s@.subrange(key as int, key + word_parse_type().len()) =~= w);
        }
    }
    k - key >= 3 && s[key] == 120 && s[key + 1] == 109 && s[key + 2] == 108
}

/// Whether every attribute of the tag that starts at `i` and ends at `end` has
/// an allowed key.
pub fn check_keys_allowed(s: &[u8], i: usize, end: usize) -> (r: bool)
    requires
        i < end <= s.len(),
    ensures
        r == keys_allowed(s@, i + 1, end as int, 0, i + 1),
{
    let mut k: usize = i + 1;
    let mut q: u8 = 0;
    let mut key: usize = i + 1;
    while k < end
        invariant
            i < k,
            key <= k,
            end <= s.len(),
            keys_allowed(s@, i + 1, end as int, 0, i + 1) == keys_allowed(
                s@,
                k as int,
                end as int,
                q,
                key as int,
            ),
        decreases end - k,
    {
        let b = s[k];
        if q != 0 {
            if b == q {
                q = 0;
                key = k + 1;
            }
        } else if b == 34 || b == 39 {
            q = b;
        } else if b == 32 || b == 9 || b == 10 || b == 13 {
            key = k + 1;
        } else if b == 61 {
            if !is_allowed_key(s, key, k) {
                return false;
            }
            key = k + 1;
        }
        k += 1;
    }
    true
}

/// Whether the tag from `i` to its end at `j` is that of the root.
pub fn is_root_tag(s: &[u8], i: usize, j: usize) -> (r: bool)
    requires
        i < j < s.len(),
    ensures
        r == root_tag(s@, i as int, j as int),
{
    let root = bytes_root();
    let binding = bytes_binding();
    if !(word_at(s, i + 1, &root) && i + 8 < j && (s[i + 8] == 32 || s[i + 8] == 9 || s[i + 8]
        == 10 || s[i + 8] == 13)) {
        return false;
    }
    match find_first_binding(s, i, j) {
        Some(p) => word_at(s, p, &binding) && p + binding.len() <= j && find_first_binding(
            s,
            p + 1,
            j,
        ).is_none(),
        None => false,
    }
}

/// Whether the tag from `i` to its end at `j` may stand where `depth` elements
/// are open.
pub fn is_tag_allowed(s: &[u8], i: usize, j: usize, depth: usize, rooted: bool) -> (r: bool)
    requires
        i < j < s.len(),
    ensures
        r == tag_allowed(s@, i as int, j as int, depth as nat, rooted),
{
    if depth == 0 {
        !rooted && is_root_tag(s, i, j)
    } else {
        if find_first_binding(s, i, j).is_some() {
            return false;
        }
        if depth % 2 == 0 && s[j - 1] != 47 {
            check_keys_allowed(s, i, j)
        } else {
            true
        }
    }
}

/// Whether the document keeps to the layers of RDF/XML.
pub fn is_striped(s: &[u8]) -> (r: bool)
    ensures
        r == striped(s@, 0, 0, false),
{
    let comment = bytes_comment();
    let mut i: usize = 0;
    let mut depth: usize = 0;
    let mut rooted = false;
    while i < s.len()
        invariant
            depth <= i,
            comment@ == word_comment(),
            striped(s@, 0, 0, false) == striped(s@, i as int, depth as nat, rooted),
        decreases s.len() - i,
    {
        if s[i] != 60 {
            i += 1;
        } else if i + 1 >= s.len() {
            return true;
        } else if s[i + 1] == 63 {
            match find_next_gt(s, i + 2) {
                Some(j) => {
                    if !is_clear(s, i, j) {
                        return false;
                    }
                    i = j + 1;
                },
                None => {
                    return false;
                },
            }
        } else if s[i + 1] == 33 {
            match find_next_gt(s, i + 2) {
                Some(j) => {
                    if word_at(s, i, &comment) && j - i >= 6 && s[j - 1] == 45 && s[j - 2] == 45
                        && is_clear(s, i, j) {
                        i = j + 1;
                    } else {
                        return false;
                    }
                },
                None => {
                    return false;
                },
            }
        } else if s[i + 1] == 47 {
            match find_next_gt(s, i + 2) {
                Some(j) => {
                    if depth > 0 && is_clear(s, i, j) {
                        depth -= 1;
                        i = j + 1;
                    } else {
                        return false;
                    }
                },
                None => {
                    return false;
                },
            }
        } else {
            match find_tag_close(s, i + 1) {
                Some(j) => {
                    if !is_clear(s, i, j) || !is_tag_allowed(s, i, j, depth, rooted) {
                        return false;
                    }
                    if s[j - 1] != 47 {
                        depth += 1;
                    }
                    rooted = true;
                    i = j + 1;
                },
                None => {
                    return false;
                },
            }
        }
    }
    true
}

/// Whether the word `w` stands at position `i`.
pub fn word_at(s: &[u8], i: usize, w: &Vec<u8>) -> (r: bool)
    ensures
        r == has_at(s@, i as int, w@),
{
    if w.len() > s.len() || i > s.len() - w.len() {
        return false;
    }
    let mut k: usize = 0;
    while k < w.len()
        invariant
            k <= w.len(),
            i + w.len() <= s.len(),
            forall|j: int| 0 <= j < k ==> s@[i + j] == w@[j],
        decreases w.len() - k,
    {
        if s[i + k] != w[k] {
            assert(s@.subrange(i as int, i + w.len())[k as int] != w@[k as int]);
            return false;
        }
        k += 1;
    }
    assert(s@.subrange(i as int, i + w.len()) =~= w@);
    true
}

/// Whether the word `w` stands between two quotation marks, the first at
/// position `i`.
pub fn quoted_word_at(s: &[u8], i: usize, w: &Vec<u8>) -> (r: bool)
    requires
        w.len() < 100,
    ensures
        r == quoted_at(s@, i as int, w@),
{
    if s.len() < w.len() + 2 || i > s.len() - w.len() - 2 {
        return false;
    }
    (s[i] == 34 || s[i] == 39) && word_at(s, i + 1, w) && (s[i + 1 + w.len()] == 34 || s[i + 1
        + w.len()] == 39)
}

/// The position of the `>` that closes the tag read from position `from` on.
pub fn find_tag_close(s: &[u8], from: usize) -> (r: Option<usize>)
    ensures
        match r {
            Some(j) => tag_close(s@, from as int, 0) == Some(j as int) && from <= j < s.len(),
            None => tag_close(s@, from as int, 0) is None,
        },
{
    let mut i: usize = from;
    let mut q: u8 = 0;
    while i < s.len()
        invariant
            from <= i,
            tag_close(s@, from as int, 0) == tag_close(s@, i as int, q),
        decreases s.len() - i,
    {
        let b = s[i];
        if q == 0 {
            if b == 62 {
                return Some(i);
            }
            if b == 34 || b == 39 {
                q = b;
            }
        } else if b == q {
            q = 0;
        }
        i += 1;
    }
    None
}

/// Whether every tag from position `from` up to the next end tag is that of an
/// empty element.
pub fn check_only_empty_elements(s: &[u8], from: usize) -> (r: bool)
    ensures
        r == only_empty_elements(s@, from as int),
{
    let mut i: usize = from;
    while i < s.len()
        invariant
            only_empty_elements(s@, from as int) == only_empty_elements(s@, i as int),
        decreases s.len() - i,
    {
        if s[i] != 60 {
            i += 1;
        } else if i + 1 >= s.len() {
            return true;
        } else if s[i + 1] == 47 {
            return true;
        } else if s[i + 1] == 33 || s[i + 1] == 63 {
            return false;
        } else {
            match find_tag_close(s, i + 1) {
                Some(j) => {
                    if s[j - 1] == 47 {
                        i = j + 1;
                    } else {
                        return false;
                    }
                },
                None => {
                    return false;
                },
            }
        }
    }
    true
}

/// Whether the collection whose attribute ends before position `from` holds
/// nothing but empty elements.
pub fn check_flat_collection(s: &[u8], from: usize) -> (r: bool)
    ensures
        r == flat_collection(s@, from as int),
{
    match find_tag_close(s, from) {
        Some(j) => j > 0 && (s[j - 1] == 47 || check_only_empty_elements(s, j + 1)),
        None => false,
    }
}

/// Whether every position of the tag from `i` to `j` is clear.
pub fn is_clear(s: &[u8], i: usize, j: usize) -> (r: bool)
    requires
        i <= j < s.len(),
    ensures
        r == clear(s@, i as int, j as int),
{
    let literal = bytes_literal();
    let resource = bytes_resource();
    let collection = bytes_collection();
    let mut k: usize = i;
    while k <= j
        invariant
            i <= k <= j + 1,
            j < s.len(),
            literal@ == word_literal(),
            resource@ == word_resource(),
            collection@ == word_collection(),
            forall|n: int| i <= n < k ==> #[trigger] clear_at(s@, n),
        decreases j + 1 - k,
    {
        if s[k] >= 128 || (s[k] == 38 && k + 1 < s.len() && s[k + 1] == 35) {
            assert(!clear_at(s@, k as int));
            return false;
        }
        if quoted_word_at(s, k, &literal) || quoted_word_at(s, k, &resource) {
            assert(!clear_at(s@, k as int));
            return false;
        }
        if quoted_word_at(s, k, &collection) {
            if !check_flat_collection(s, k + 12) {
                assert(!clear_at(s@, k as int));
                return false;
            }
        }
        assert(clear_at(s@, k as int));
        k += 1;
    }
    true
}

/// The screen: whether the document may be handed to the outside parser.
pub open spec fn supported(s: Seq<u8>) -> bool {
    striped(s, 0, 0, false)
}

/// Whether the screen admits the document.
pub fn is_supported(s: &[u8]) -> (r: bool)
    ensures
        r == supported(s@),
{
    is_striped(s)
}

} // verus!
