//! Reading XML text into an element tree: tags, attributes with single or
//! double quotes, the five predefined entities, comments and a leading
//! declaration. Text that is only whitespace is dropped.
use vstd::prelude::*;
use crate::literal::DecodeError;
use crate::xml::{
    attribute_pairs, attributes_text, children_text, element_text, escape_char, escaped, shape,
    text_content, Attribute, Element,
};

verus! {

pub open spec fn is_space(c: char) -> bool {
    c == ' ' || c == '\n' || c == '\r' || c == '\t'
}

/// Characters that can stand in a tag or attribute name.
pub open spec fn is_name_char(c: char) -> bool {
    !is_space(c) && c != '<' && c != '>' && c != '/' && c != '=' && c != '"' && c != '\''
        && c != '&' && c != '?' && c != '!'
}

/// The text an entity reference stands for, by its name.
pub open spec fn entity_value(name: Seq<char>) -> Option<char> {
    if name == "amp"@ {
        Some('&')
    } else if name == "lt"@ {
        Some('<')
    } else if name == "gt"@ {
        Some('>')
    } else if name == "quot"@ {
        Some('"')
    } else if name == "apos"@ {
        Some('\'')
    } else {
        None
    }
}

/// The index of the first `;` in `s` from `i` on.
pub open spec fn semicolon_from(s: Seq<char>, i: int) -> Option<int>
    decreases s.len() - i,
{
    if i < 0 || i >= s.len() {
        None
    } else if s[i] == ';' {
        Some(i)
    } else {
        semicolon_from(s, i + 1)
    }
}

/// The characters that escaped text stands for, or `None` when it holds an
/// unknown or unterminated entity.
pub open spec fn unescaped(s: Seq<char>) -> Option<Seq<char>>
    decreases s.len(),
{
    if s.len() == 0 {
        Some(Seq::empty())
    } else if s[0] != '&' {
        match unescaped(s.drop_first()) {
            Some(t) => Some(seq![s[0]] + t),
            None => None,
        }
    } else {
        match semicolon_from(s, 1) {
            Some(k) => if 1 <= k < s.len() {
                match entity_value(s.subrange(1, k)) {
                    Some(c) => match unescaped(s.subrange(k + 1, s.len() as int)) {
                        Some(t) => Some(seq![c] + t),
                        None => None,
                    },
                    None => None,
                }
            } else {
                None
            },
            None => None,
        }
    }
}

/// The characters of a text, one by one.
pub fn chars_of(s: &str) -> (r: Vec<char>)
    ensures
        r@ == s@,
{
    let n = s.unicode_len();
    let mut r: Vec<char> = Vec::new();
    let mut i: usize = 0;
    while i < n
        invariant
            n == s@.len(),
            i <= n,
            r@ == s@.subrange(0, i as int),
        decreases n - i,
    {
        r.push(s.get_char(i));
        i = i + 1;
        assert(r@ =~= s@.subrange(0, i as int));
    }
    assert(s@.subrange(0, n as int) == s@);
    r
}

/// The first position from `i` on that is not whitespace.
fn skip_spaces(c: &Vec<char>, i: usize) -> (j: usize)
    requires
        i <= c@.len(),
    ensures
        i <= j <= c@.len(),
        forall|k: int| i <= k < j ==> is_space(#[trigger] c@[k]),
        j < c@.len() ==> !is_space(c@[j as int]),
{
    let mut j = i;
    while j < c.len() && (c[j] == ' ' || c[j] == '\n' || c[j] == '\r' || c[j] == '\t')
        invariant
            i <= j <= c@.len(),
            forall|k: int| i <= k < j ==> is_space(#[trigger] c@[k]),
        decreases c@.len() - j,
    {
        j = j + 1;
    }
    j
}

fn name_char(x: char) -> (r: bool)
    ensures
        r == is_name_char(x),
{
    !(x == ' ' || x == '\n' || x == '\r' || x == '\t') && x != '<' && x != '>' && x != '/'
        && x != '=' && x != '"' && x != '\'' && x != '&' && x != '?' && x != '!'
}

/// The end of the run of name characters that starts at `i`.
fn name_end(c: &Vec<char>, i: usize) -> (j: usize)
    requires
        i <= c@.len(),
    ensures
        i <= j <= c@.len(),
        forall|k: int| i <= k < j ==> is_name_char(#[trigger] c@[k]),
        j < c@.len() ==> !is_name_char(c@[j as int]),
{
    let mut j = i;
    while j < c.len() && name_char(c[j])
        invariant
            i <= j <= c@.len(),
            forall|k: int| i <= k < j ==> is_name_char(#[trigger] c@[k]),
        decreases c@.len() - j,
    {
        j = j + 1;
    }
    j
}

/// Whether the text `lit` stands at position `i`.
fn looking_at(c: &Vec<char>, i: usize, lit: &str) -> (r: bool)
    requires
        i <= c@.len(),
    ensures
        r == (i + lit@.len() <= c@.len() && c@.subrange(i as int, i + lit@.len()) == lit@),
{
    let n = lit.unicode_len();
    let m = c.len();
    if n > m - i {
        return false;
    }
    let mut k: usize = 0;
    while k < n
        invariant
            n == lit@.len(),
            m == c@.len(),
            i + n <= c@.len(),
            k <= n,
            c@.subrange(i as int, i + k) == lit@.subrange(0, k as int),
        decreases n - k,
    {
        if c[i + k] != lit.get_char(k) {
            assert(c@.subrange(i as int, i + n)[k as int] != lit@[k as int]);
            return false;
        }
        assert(c@.subrange(i as int, i + k + 1) =~= c@.subrange(i as int, i + k).push(c@[i + k]));
        assert(lit@.subrange(0, k + 1) =~= lit@.subrange(0, k as int).push(lit@[k as int]));
        k = k + 1;
    }
    assert(lit@.subrange(0, n as int) == lit@);
    true
}

/// The position after the first occurrence of `lit` from `i` on.
fn skip_past(c: &Vec<char>, i: usize, lit: &str) -> (r: Option<usize>)
    requires
        i <= c@.len(),
        lit@.len() > 0,
    ensures
        r matches Some(j) ==> i < j <= c@.len() && c@.subrange(j - lit@.len(), j as int) == lit@,
{
    let n = lit.unicode_len();
    let mut k = i;
    while k < c.len()
        invariant
            i <= k <= c@.len(),
            n == lit@.len(),
            n > 0,
        decreases c@.len() - k,
    {
        if looking_at(c, k, lit) {
            return Some(k + n);
        }
        k = k + 1;
    }
    None
}

fn entity_char(name: &str) -> (r: Option<&'static str>)
    ensures
        r matches Some(t) ==> entity_value(name@) matches Some(x) && t@ == seq![x],
        r is None ==> entity_value(name@) is None,
{
    proof {
        reveal_strlit("&");
        reveal_strlit("<");
        reveal_strlit(">");
        reveal_strlit("\"");
        reveal_strlit("'");
    }
    if crate::xml::same_text(name, "amp") {
        Some("&")
    } else if crate::xml::same_text(name, "lt") {
        Some("<")
    } else if crate::xml::same_text(name, "gt") {
        Some(">")
    } else if crate::xml::same_text(name, "quot") {
        Some("\"")
    } else if crate::xml::same_text(name, "apos") {
        Some("'")
    } else {
        None
    }
}

proof fn lemma_semicolon_shift(s: Seq<char>, i: int, k: int)
    requires
        0 <= i <= k,
        k <= s.len(),
    ensures
        semicolon_from(s.subrange(i, s.len() as int), k - i) == match semicolon_from(s, k) {
            Some(x) => Some(x - i),
            None => None,
        },
    decreases s.len() - k,
{
    if k < s.len() {
        lemma_semicolon_shift(s, i, k + 1);
    }
}

/// Replaces the entity references in `s@[from..to]` by the characters they
/// stand for.
pub fn unescape(s: &str, c: &Vec<char>, from: usize, to: usize) -> (r: Result<String, DecodeError>)
    requires
        c@ == s@,
        from <= to <= c@.len(),
    ensures
        r matches Ok(t) ==> unescaped(s@.subrange(from as int, to as int)) == Some(t@),
        r is Err ==> unescaped(s@.subrange(from as int, to as int)) is None,
        r matches Err(err) ==> err is MalformedValue,
{
    let ghost whole = s@.subrange(from as int, to as int);
    let mut out = String::new();
    let mut i = from;
    while i < to
        invariant
            c@ == s@,
            from <= i <= to <= c@.len(),
            whole == s@.subrange(from as int, to as int),
            unescaped(whole) == match unescaped(s@.subrange(i as int, to as int)) {
                Some(t) => Some(out@ + t),
                None => None,
            },
        decreases to - i,
    {
        let ghost rest = s@.subrange(i as int, to as int);
        if c[i] != '&' {
            assert(rest.drop_first() =~= s@.subrange(i + 1, to as int));
            out.append(s.substring_char(i, i + 1));
            assert(s@.subrange(i as int, i + 1) =~= seq![rest[0]]);
            i = i + 1;
        } else {
            let mut k = i + 1;
            while k < to && c[k] != ';'
                invariant
                    i < k <= to,
                    c@ == s@,
                    to <= c@.len(),
                    forall|x: int| i + 1 <= x < k ==> c@[x] != ';',
                decreases to - k,
            {
                k = k + 1;
            }
            proof {
                let sub = s@.subrange(0, to as int);
                lemma_semicolon_shift(sub, i as int, i as int + 1);
                assert(sub.subrange(i as int, to as int) =~= rest);
                lemma_semicolon_scan(rest, 1, (k - i) as int);
            }
            if k >= to {
                return Err(DecodeError::MalformedValue(String::from_str("entity")));
            }
            let name = s.substring_char(i + 1, k);
            assert(name@ =~= rest.subrange(1, (k - i) as int));
            match entity_char(name) {
                Some(t) => {
                    out.append(t);
                    assert(rest.subrange((k - i) + 1, rest.len() as int) =~= s@.subrange(
                        k + 1,
                        to as int,
                    ));
                    i = k + 1;
                },
                None => {
                    return Err(DecodeError::MalformedValue(String::from_str("entity")));
                },
            }
        }
    }
    assert(s@.subrange(to as int, to as int) =~= Seq::<char>::empty());
    assert(out@ + Seq::<char>::empty() =~= out@);
    Ok(out)
}

proof fn lemma_semicolon_scan(s: Seq<char>, j: int, k: int)
    requires
        1 <= j <= k <= s.len(),
        forall|x: int| j <= x < k ==> s[x] != ';',
        k < s.len() ==> s[k] == ';',
    ensures
        semicolon_from(s, j) == if k < s.len() {
            Some(k)
        } else {
            None::<int>
        },
    decreases k - j,
{
    if j < k {
        lemma_semicolon_scan(s, j + 1, k);
    }
}

/// `x` stands in `c` at position `i`.
pub open spec fn occurs_at(c: Seq<char>, i: int, x: Seq<char>) -> bool {
    0 <= i && i + x.len() <= c.len() && c.subrange(i, i + x.len()) == x
}

proof fn lemma_occurs_split(c: Seq<char>, i: int, x: Seq<char>, y: Seq<char>)
    requires
        occurs_at(c, i, x + y),
    ensures
        occurs_at(c, i, x),
        occurs_at(c, i + x.len(), y),
{
    let w = c.subrange(i, i + x.len() + y.len());
    assert(w == x + y);
    assert forall|k: int| 0 <= k < x.len() implies #[trigger] c[i + k] == x[k] by {
        assert(w[k] == c[i + k]);
        assert((x + y)[k] == x[k]);
    }
    let v = c.subrange(i + x.len(), i + x.len() + y.len());
    assert forall|k: int| 0 <= k < y.len() implies #[trigger] v[k] == y[k] by {
        assert(w[x.len() + k] == c[i + x.len() + k]);
        assert((x + y)[x.len() + k] == y[k]);
    }
    assert(c.subrange(i, i + x.len()) =~= x);
    assert(c.subrange(i + x.len(), i + x.len() + y.len()) =~= y);
}

proof fn lemma_occurs_char(c: Seq<char>, i: int, x: Seq<char>, k: int)
    requires
        occurs_at(c, i, x),
        0 <= k < x.len(),
    ensures
        c[i + k] == x[k],
{
    assert(c.subrange(i, i + x.len())[k] == c[i + k]);
}

pub open spec fn name_ok(n: Seq<char>) -> bool {
    n.len() > 0 && forall|k: int| 0 <= k < n.len() ==> is_name_char(#[trigger] n[k])
}

/// Text that is absent, or holds a character other than whitespace.
pub open spec fn text_ok(t: Option<String>) -> bool {
    t matches Some(s) ==> !(forall|k: int| 0 <= k < s@.len() ==> is_space(#[trigger] s@[k]))
}

/// An element whose text reads back as itself: names made of name
/// characters, and text that is not only whitespace, at every level.
pub open spec fn well_formed(e: Element) -> bool
    decreases e,
{
    &&& name_ok(e.name@)
    &&& forall|j: int| 0 <= j < e.attributes@.len() ==> name_ok(#[trigger] e.attributes@[j].name@)
    &&& text_ok(e.text)
    &&& forall|j: int| 0 <= j < e.children@.len() ==> well_formed(#[trigger] e.children@[j])
}

/// Two elements with the same shapes at every level.
pub open spec fn same_tree(a: Element, b: Element) -> bool
    decreases a,
{
    &&& shape(a) == shape(b)
    &&& a.children@.len() == b.children@.len()
    &&& forall|j: int|
        0 <= j < a.children@.len() ==> same_tree(#[trigger] a.children@[j], b.children@[j])
}

pub open spec fn one_attribute(a: Attribute) -> Seq<char> {
    " "@ + a.name@ + "=\""@ + escaped(a.value@) + "\""@
}

proof fn lemma_attributes_step(a: Seq<Attribute>, k: int)
    requires
        0 <= k < a.len(),
    ensures
        attributes_text(a.subrange(k, a.len() as int)) == one_attribute(a[k]) + attributes_text(
            a.subrange(k + 1, a.len() as int),
        ),
    decreases a.len(),
{
    let s = a.subrange(k, a.len() as int);
    if k + 1 == a.len() {
        assert(s.drop_last() =~= Seq::<Attribute>::empty());
        assert(a.subrange(k + 1, a.len() as int) =~= Seq::<Attribute>::empty());
        assert(attributes_text(s) =~= one_attribute(a[k]) + attributes_text(
            a.subrange(k + 1, a.len() as int),
        ));
    } else {
        let d = a.drop_last();
        lemma_attributes_step(d, k);
        assert(d.subrange(k, d.len() as int) =~= s.drop_last());
        assert(d.subrange(k + 1, d.len() as int) =~= a.subrange(k + 1, a.len() as int).drop_last());
        assert(attributes_text(s) =~= one_attribute(a[k]) + attributes_text(
            a.subrange(k + 1, a.len() as int),
        ));
    }
}

/// The text of children `k` up to `n` of `e`.
pub open spec fn children_range(e: Element, k: int, n: int) -> Seq<char>
    decreases n - k,
{
    if k < 0 || n <= k || n > e.children@.len() {
        Seq::empty()
    } else {
        element_text(e.children@[k]) + children_range(e, k + 1, n)
    }
}

proof fn lemma_children_range_end(e: Element, k: int, n: int)
    requires
        0 <= k < n <= e.children@.len(),
    ensures
        children_range(e, k, n) == children_range(e, k, n - 1) + element_text(e.children@[n - 1]),
    decreases n - k,
{
    if k + 1 < n {
        lemma_children_range_end(e, k + 1, n);
    } else {
        assert(children_range(e, k + 1, n) =~= Seq::<char>::empty());
        assert(children_range(e, k, n - 1) =~= Seq::<char>::empty());
    }
    assert(children_range(e, k, n) =~= children_range(e, k, n - 1) + element_text(
        e.children@[n - 1],
    ));
}

proof fn lemma_children_whole(e: Element, n: int)
    requires
        0 <= n <= e.children@.len(),
    ensures
        children_text(e, n) == children_range(e, 0, n),
    decreases n,
{
    if n > 0 {
        lemma_children_whole(e, n - 1);
        lemma_children_range_end(e, 0, n);
    } else {
        assert(children_range(e, 0, 0) =~= Seq::<char>::empty());
    }
}

/// Escaped text holds no `<` and no `"`.
proof fn lemma_escaped_plain(s: Seq<char>)
    ensures
        forall|k: int|
            0 <= k < escaped(s).len() ==> #[trigger] escaped(s)[k] != '<' && escaped(s)[k] != '"',
    decreases s.len(),
{
    reveal_strlit("&amp;");
    reveal_strlit("&lt;");
    reveal_strlit("&gt;");
    reveal_strlit("&quot;");
    if s.len() > 0 {
        lemma_escaped_plain(s.drop_last());
        let a = escaped(s.drop_last());
        let b = escape_char(s.last());
        assert forall|k: int| 0 <= k < (a + b).len() implies #[trigger] (a + b)[k] != '<' && (a
            + b)[k] != '"' by {
            if k >= a.len() {
                assert((a + b)[k] == b[k - a.len()]);
            }
        }
    }
}

/// The escaped text of a non-empty text does not start with `<`.
proof fn lemma_escaped_first(s: Seq<char>)
    requires
        s.len() > 0,
    ensures
        escaped(s).len() > 0,
        escaped(s)[0] != '<',
{
    lemma_escaped_front(s);
    lemma_escaped_plain(s);
    reveal_strlit("&amp;");
    reveal_strlit("&lt;");
    reveal_strlit("&gt;");
    reveal_strlit("&quot;");
    assert(escape_char(s[0]).len() > 0);
}

proof fn lemma_escaped_front(s: Seq<char>)
    requires
        s.len() > 0,
    ensures
        escaped(s) == escape_char(s[0]) + escaped(s.drop_first()),
    decreases s.len(),
{
    if s.len() == 1 {
        assert(s.drop_last() =~= Seq::<char>::empty());
        assert(s.drop_first() =~= Seq::<char>::empty());
        assert(escaped(s) == escaped(s.drop_last()) + escape_char(s.last()));
        assert(escape_char(s[0]) + Seq::<char>::empty() =~= escape_char(s[0]));
    } else {
        let t = s.drop_last();
        lemma_escaped_front(t);
        assert(t.drop_first() =~= s.drop_first().drop_last());
        assert(s.drop_first().last() == s.last());
        assert(escaped(s.drop_first()) == escaped(s.drop_first().drop_last()) + escape_char(
            s.drop_first().last(),
        ));
        assert(escaped(s) =~= escape_char(s[0]) + escaped(s.drop_first()));
    }
}

proof fn lemma_entity(x: Seq<char>, rest: Seq<char>, name: Seq<char>, c: char)
    requires
        name.len() > 0,
        entity_value(name) == Some(c),
        forall|k: int| 0 <= k < name.len() ==> name[k] != ';',
        x == seq!['&'] + name + seq![';'] + rest,
    ensures
        unescaped(x) == match unescaped(rest) {
            Some(t) => Some(seq![c] + t),
            None => None,
        },
{
    let k: int = name.len() as int + 1;
    assert forall|j: int| 1 <= j < k implies x[j] != ';' by {
        assert(x[j] == name[j - 1]);
    }
    lemma_semicolon_scan(x, 1, k);
    assert(x.subrange(1, k) =~= name);
    assert(x.subrange(k + 1, x.len() as int) =~= rest);
}

/// Text written with the escaped form of its characters reads back as the
/// same text.
pub proof fn lemma_unescape_escaped(s: Seq<char>)
    ensures
        unescaped(escaped(s)) == Some(s),
    decreases s.len(),
{
    if s.len() > 0 {
        let c = s[0];
        let rest = escaped(s.drop_first());
        lemma_escaped_front(s);
        lemma_unescape_escaped(s.drop_first());
        reveal_strlit("&amp;");
        reveal_strlit("&lt;");
        reveal_strlit("&gt;");
        reveal_strlit("&quot;");
        reveal_strlit("amp");
        reveal_strlit("lt");
        reveal_strlit("gt");
        reveal_strlit("quot");
        let x = escape_char(c) + rest;
        if c == '&' {
            assert("amp"@.len() != "lt"@.len());
            assert(x =~= seq!['&'] + "amp"@ + seq![';'] + rest);
            lemma_entity(x, rest, "amp"@, '&');
        } else if c == '<' {
            assert("lt"@.len() != "amp"@.len());
            assert(x =~= seq!['&'] + "lt"@ + seq![';'] + rest);
            lemma_entity(x, rest, "lt"@, '<');
        } else if c == '>' {
            assert("gt"@[0] != "lt"@[0]);
            assert(x =~= seq!['&'] + "gt"@ + seq![';'] + rest);
            lemma_entity(x, rest, "gt"@, '>');
        } else if c == '"' {
            assert("quot"@.len() != "amp"@.len() && "quot"@.len() != "lt"@.len());
            assert(x =~= seq!['&'] + "quot"@ + seq![';'] + rest);
            lemma_entity(x, rest, "quot"@, '"');
        } else {
            assert(x.drop_first() =~= rest);
        }
        assert(seq![c] + s.drop_first() =~= s);
    }
}

fn shape_error(what: &str) -> (r: DecodeError)
    ensures
        r is EnvelopeShape,
{
    DecodeError::EnvelopeShape(String::from_str(what))
}

/// Whether every character of `t` is whitespace.
fn all_spaces(t: &str) -> (r: bool)
    ensures
        r == forall|k: int| 0 <= k < t@.len() ==> is_space(#[trigger] t@[k]),
{
    let n = t.unicode_len();
    let mut i: usize = 0;
    while i < n
        invariant
            n == t@.len(),
            i <= n,
            forall|k: int| 0 <= k < i ==> is_space(#[trigger] t@[k]),
        decreases n - i,
    {
        let x = t.get_char(i);
        if !(x == ' ' || x == '\n' || x == '\r' || x == '\t') {
            return false;
        }
        i = i + 1;
    }
    true
}

/// The tag of the element that a reading at `i` found: a non-empty run of
/// name characters right after the `<` at `i`.
pub open spec fn tag_at(c: Seq<char>, i: int, e: Element) -> bool {
    &&& 0 <= i < c.len()
    &&& c[i] == '<'
    &&& e.name@.len() > 0
    &&& i + 1 + e.name@.len() <= c.len()
    &&& e.name@ == c.subrange(i + 1, i + 1 + e.name@.len())
    &&& forall|k: int| 0 <= k < e.name@.len() ==> is_name_char(#[trigger] e.name@[k])
}

/// Where the parts of one written attribute stand.
proof fn lemma_attribute_layout(c: Seq<char>, p: int, a: Attribute, rest: Seq<char>)
    requires
        occurs_at(c, p, one_attribute(a) + rest),
    ensures
        c[p] == ' ',
        occurs_at(c, p + 1, a.name@),
        c[p + 1 + a.name@.len()] == '=',
        c[p + 2 + a.name@.len()] == '"',
        occurs_at(c, p + 3 + a.name@.len(), escaped(a.value@)),
        c[p + 3 + a.name@.len() + escaped(a.value@).len()] == '"',
        occurs_at(c, p + one_attribute(a).len(), rest),
        one_attribute(a).len() == 4 + a.name@.len() + escaped(a.value@).len(),
{
    reveal_strlit(" ");
    reveal_strlit("=\"");
    reveal_strlit("\"");
    let n = a.name@;
    let v = escaped(a.value@);
    lemma_occurs_split(c, p, one_attribute(a), rest);
    let o = one_attribute(a);
    assert(o =~= seq![' '] + n + seq!['=', '"'] + v + seq!['"']);
    lemma_occurs_split(c, p, seq![' '] + n + seq!['=', '"'] + v, seq!['"']);
    lemma_occurs_split(c, p, seq![' '] + n + seq!['=', '"'], v);
    lemma_occurs_split(c, p, seq![' '] + n, seq!['=', '"']);
    lemma_occurs_split(c, p, seq![' '], n);
    lemma_occurs_char(c, p, seq![' '], 0);
    lemma_occurs_char(c, p + 1 + n.len(), seq!['=', '"'], 0);
    lemma_occurs_char(c, p + 1 + n.len(), seq!['=', '"'], 1);
    lemma_occurs_char(c, p + 3 + n.len() + v.len(), seq!['"'], 0);
}

/// What reading the attributes of a start tag is expected to meet: the
/// written attributes `a`, then `tail`, which starts with `>` or `/>`.
pub open spec fn attributes_expected(c: Seq<char>, start: int, a: Seq<Attribute>, tail: Seq<char>) -> bool {
    &&& forall|j: int| 0 <= j < a.len() ==> name_ok(#[trigger] a[j].name@)
    &&& occurs_at(c, start, attributes_text(a) + tail)
    &&& tail.len() > 0
    &&& (tail[0] == '>' || (tail.len() > 1 && tail[0] == '/' && tail[1] == '>'))
}

/// Reads the attributes of a start tag from `start` up to and including its
/// `>` or `/>`; tells whether the tag closed the element. On written
/// attributes it gives them back and stops right after the tag.
fn parse_attributes(
    s: &str,
    c: &Vec<char>,
    start: usize,
    expected: Ghost<Option<(Seq<Attribute>, Seq<char>)>>,
) -> (r: Result<(Vec<Attribute>, usize, bool), DecodeError>)
    requires
        c@ == s@,
        start <= c@.len(),
        expected@ matches Some((a, tail)) ==> attributes_expected(c@, start as int, a, tail),
    ensures
        r matches Ok((v, p, closed)) ==> start < p <= c@.len() && c@[p - 1] == '>',
        expected@ matches Some((a, tail)) ==> (r matches Ok((v, p, closed)) && attribute_pairs(v@)
            == attribute_pairs(a) && closed == (tail[0] == '/') && p == start
            + attributes_text(a).len() + if closed {
            2int
        } else {
            1int
        }),
{
    let mut attributes: Vec<Attribute> = Vec::new();
    let mut p = start;
    let ghost mut k: int = 0;
    proof {
        if let Some((a, tail)) = expected@ {
            assert(a.subrange(0, a.len() as int) =~= a);
            assert(attribute_pairs(attributes@) =~= attribute_pairs(a.subrange(0, 0)));
        }
    }
    loop
        invariant
            c@ == s@,
            start <= p <= c@.len(),
            expected@ matches Some((a, tail)) ==> {
                &&& attributes_expected(c@, start as int, a, tail)
                &&& 0 <= k <= a.len()
                &&& occurs_at(c@, p as int, attributes_text(a.subrange(k, a.len() as int)) + tail)
                &&& p + attributes_text(a.subrange(k, a.len() as int)).len() == start
                    + attributes_text(a).len()
                &&& attribute_pairs(attributes@) == attribute_pairs(a.subrange(0, k))
            },
        decreases c@.len() - p,
    {
        let ghost before = p;
        proof {
            if let Some((a, tail)) = expected@ {
                if k < a.len() {
                    lemma_attributes_step(a, k);
                    let one = one_attribute(a[k]);
                    let more = attributes_text(a.subrange(k + 1, a.len() as int));
                    assert(one + more + tail =~= one + (more + tail));
                    lemma_attribute_layout(c@, p as int, a[k], more + tail);
                    assert(name_ok(a[k].name@));
                    assert(is_name_char(a[k].name@[0]));
                    lemma_occurs_char(c@, p + 1, a[k].name@, 0);
                } else {
                    assert(a.subrange(k, a.len() as int) =~= Seq::<Attribute>::empty());
                    assert(attributes_text(a.subrange(k, a.len() as int)) + tail =~= tail);
                    lemma_occurs_char(c@, p as int, tail, 0);
                    if tail.len() > 1 {
                        lemma_occurs_char(c@, p as int, tail, 1);
                    }
                }
            }
        }
        p = skip_spaces(c, p);
        if p >= c.len() {
            return Err(shape_error("tag"));
        }
        if c[p] == '/' {
            if p + 1 < c.len() && c[p + 1] == '>' {
                proof {
                    if let Some((a, tail)) = expected@ {
                        assert(a.subrange(0, k) =~= a);
                    }
                }
                return Ok((attributes, p + 2, true));
            }
            return Err(shape_error("tag"));
        }
        if c[p] == '>' {
            proof {
                if let Some((a, tail)) = expected@ {
                    assert(a.subrange(0, k) =~= a);
                }
            }
            return Ok((attributes, p + 1, false));
        }
        let an = name_end(c, p);
        if an == p {
            return Err(shape_error("attribute"));
        }
        proof {
            if let Some((a, tail)) = expected@ {
                let n = a[k].name@;
                assert forall|j: int| 0 <= j < n.len() implies c@[p + j] == n[j] by {
                    lemma_occurs_char(c@, p as int, n, j);
                }
                if an < p + n.len() {
                    assert(is_name_char(n[an - p]));
                }
                if an > p + n.len() {
                    assert(is_name_char(c@[p + n.len()]));
                }
                assert(an == p + n.len());
            }
        }
        let name = String::from_str(s.substring_char(p, an));
        proof {
            if let Some((a, tail)) = expected@ {
                assert(p == before + 1);
                assert(name@ =~= a[k].name@);
            }
        }
        let q = skip_spaces(c, an);
        if q >= c.len() || c[q] != '=' {
            return Err(shape_error("attribute"));
        }
        let q = skip_spaces(c, q + 1);
        if q >= c.len() || (c[q] != '"' && c[q] != '\'') {
            return Err(shape_error("attribute"));
        }
        let quote = c[q];
        let ghost vt: Seq<char> = match expected@ {
            Some((a, _)) => escaped(a[k].value@),
            None => Seq::empty(),
        };
        proof {
            if let Some((a, tail)) = expected@ {
                lemma_escaped_plain(a[k].value@);
                assert forall|m: int| q + 1 <= m < q + 1 + vt.len() implies #[trigger] c@[m] != '"' by {
                    lemma_occurs_char(c@, q + 1, vt, m - q - 1);
                    assert(vt[m - q - 1] != '"');
                }
            }
        }
        let mut e = q + 1;
        while e < c.len() && c[e] != quote
            invariant
                q < e <= c@.len(),
                forall|m: int| q < m < e ==> c@[m] != quote,
            decreases c@.len() - e,
        {
            e = e + 1;
        }
        if e >= c.len() {
            return Err(shape_error("attribute"));
        }
        proof {
            if let Some((a, tail)) = expected@ {
                if e < q + 1 + vt.len() {
                    assert(c@[e as int] != '"');
                }
                assert(e == q + 1 + vt.len());
                assert(s@.subrange(q + 1, e as int) == vt);
                lemma_unescape_escaped(a[k].value@);
            }
        }
        let value = unescape(s, c, q + 1, e)?;
        let ghost old_attributes = attributes@;
        attributes.push(Attribute { name, value });
        p = e + 1;
        proof {
            if let Some((a, tail)) = expected@ {
                assert(value@ == a[k].value@);
                assert(attributes@ == old_attributes.push(Attribute { name, value }));
                assert(a.subrange(0, k + 1) =~= a.subrange(0, k).push(a[k]));
                assert(attribute_pairs(attributes@) =~= attribute_pairs(old_attributes).push(
                    (a[k].name@, a[k].value@),
                ));
                assert(attribute_pairs(a.subrange(0, k + 1)) =~= attribute_pairs(a.subrange(0, k)).push(
                    (a[k].name@, a[k].value@),
                ));
                assert(attribute_pairs(attributes@) =~= attribute_pairs(a.subrange(0, k + 1)));
                k = k + 1;
            }
        }
    }
}

/// The end tag of an element.
pub open spec fn end_tag(e: Element) -> Seq<char> {
    "</"@ + e.name@ + ">"@
}

/// What follows the attributes of a written element.
pub open spec fn after_attributes(e: Element) -> Seq<char> {
    if e.children@.len() == 0 && e.text is None {
        "/>"@
    } else {
        ">"@ + (text_content(e.text) + (children_range(e, 0, e.children@.len() as int) + end_tag(e)))
    }
}

proof fn lemma_element_layout(e: Element)
    ensures
        element_text(e) == "<"@ + e.name@ + attributes_text(e.attributes@) + after_attributes(e),
{
    lemma_children_whole(e, e.children@.len() as int);
    let head = "<"@ + e.name@ + attributes_text(e.attributes@);
    if !(e.children@.len() == 0 && e.text is None) {
        assert(element_text(e) =~= head + after_attributes(e));
    }
}

/// A written element starts with `<` and a name character.
proof fn lemma_element_start(e: Element)
    requires
        name_ok(e.name@),
    ensures
        element_text(e).len() >= 2,
        element_text(e)[0] == '<',
        is_name_char(element_text(e)[1]),
{
    reveal_strlit("<");
    lemma_element_layout(e);
    let t = element_text(e);
    assert(t[0] == ("<"@ + e.name@)[0]);
    assert(t[1] == ("<"@ + e.name@)[1]);
    assert(("<"@ + e.name@)[1] == e.name@[0]);
}

proof fn lemma_range_step(e: Element, k: int, n: int)
    requires
        0 <= k < n <= e.children@.len(),
    ensures
        children_range(e, k, n) == element_text(e.children@[k]) + children_range(e, k + 1, n),
{
}

/// What stands after the children consumed so far: the remaining children,
/// then the end tag; it starts with `<`, and continues with `/` only when no
/// child remains.
proof fn lemma_remaining_start(e: Element, k: int)
    requires
        well_formed(e),
        0 <= k <= e.children@.len(),
    ensures
        (children_range(e, k, e.children@.len() as int) + end_tag(e)).len() >= 2,
        (children_range(e, k, e.children@.len() as int) + end_tag(e))[0] == '<',
        k < e.children@.len() ==> is_name_char(
            (children_range(e, k, e.children@.len() as int) + end_tag(e))[1],
        ),
        k == e.children@.len() ==> children_range(e, k, e.children@.len() as int) + end_tag(e)
            == end_tag(e),
{
    reveal_strlit("</");
    let n = e.children@.len() as int;
    let r = children_range(e, k, n);
    if k < n {
        lemma_range_step(e, k, n);
        assert(well_formed(e.children@[k]));
        lemma_element_start(e.children@[k]);
        let t = element_text(e.children@[k]);
        assert((r + end_tag(e))[0] == t[0]);
        assert((r + end_tag(e))[1] == t[1]);
    } else {
        assert(r =~= Seq::<char>::empty());
        assert(r + end_tag(e) =~= end_tag(e));
        assert(end_tag(e)[0] == '<');
    }
}

/// Reads the element that starts at `i`, with everything inside it; returns
/// it and the position right after its end. On the written text of a
/// well-formed element it gives back an element with the same shapes at
/// every level, and stops right after that text.
fn parse_element(s: &str, c: &Vec<char>, i: usize, expected: Ghost<Option<Element>>) -> (r: Result<(Element, usize), DecodeError>)
    requires
        c@ == s@,
        i <= c@.len(),
        expected@ matches Some(x) ==> well_formed(x) && occurs_at(c@, i as int, element_text(x)),
    ensures
        r matches Ok((e, j)) ==> i < j <= c@.len() && c@[j - 1] == '>' && tag_at(c@, i as int, e),
        expected@ matches Some(x) ==> (r matches Ok((e, j)) && j == i + element_text(x).len()
            && same_tree(e, x)),
    decreases c@.len() - i,
{
    proof {
        if let Some(x) = expected@ {
            reveal_strlit("<");
            reveal_strlit("/>");
            reveal_strlit(">");
            lemma_element_layout(x);
            let n = x.name@;
            let at = attributes_text(x.attributes@);
            let tail = after_attributes(x);
            assert("<"@ + n + at + tail =~= seq!['<'] + (n + (at + tail)));
            lemma_occurs_split(c@, i as int, seq!['<'], n + (at + tail));
            lemma_occurs_char(c@, i as int, seq!['<'], 0);
            lemma_occurs_split(c@, i + 1, n, at + tail);
            // The character after the name is a space, `/` or `>`.
            if x.attributes@.len() > 0 {
                lemma_attributes_step(x.attributes@, 0);
                assert(x.attributes@.subrange(0, x.attributes@.len() as int) =~= x.attributes@);
                reveal_strlit(" ");
                assert(one_attribute(x.attributes@[0])[0] == ' ');
                assert((at + tail)[0] == ' ');
            } else {
                assert(at =~= Seq::<char>::empty());
                assert((at + tail)[0] == tail[0]);
            }
            lemma_occurs_char(c@, i + 1 + n.len(), at + tail, 0);
        }
    }
    if i >= c.len() || c[i] != '<' {
        return Err(shape_error("element"));
    }
    let ne = name_end(c, i + 1);
    proof {
        if let Some(x) = expected@ {
            let n = x.name@;
            assert forall|j: int| 0 <= j < n.len() implies c@[i + 1 + j] == n[j] by {
                lemma_occurs_char(c@, i + 1, n, j);
            }
            if ne < i + 1 + n.len() {
                assert(is_name_char(n[ne - i - 1]));
            }
            if ne > i + 1 + n.len() {
                assert(is_name_char(c@[i + 1 + n.len()]));
            }
            assert(ne == i + 1 + n.len());
        }
    }
    if ne == i + 1 {
        return Err(shape_error("element"));
    }
    let name = String::from_str(s.substring_char(i + 1, ne));
    assert(name@ == c@.subrange(i + 1, ne as int));
    let ghost expected_attributes = match expected@ {
        Some(x) => Some((x.attributes@, after_attributes(x))),
        None => None,
    };
    proof {
        if let Some(x) = expected@ {
            assert(name@ =~= x.name@);
            lemma_occurs_split(c@, i + 1 + x.name@.len(), attributes_text(x.attributes@), after_attributes(x));
            reveal_strlit("/>");
            reveal_strlit(">");
            let tail = after_attributes(x);
            if !(x.children@.len() == 0 && x.text is None) {
                assert(tail[0] == '>');
            }
            assert(attributes_expected(c@, ne as int, x.attributes@, tail));
        }
    }
    let (attributes, start, closed) = parse_attributes(s, c, ne, Ghost(expected_attributes))?;
    if closed {
        let e = Element { name, attributes, children: Vec::new(), text: None };
        assert forall|k: int| 0 <= k < e.name@.len() implies is_name_char(#[trigger] e.name@[k]) by {
            assert(e.name@[k] == c@[i + 1 + k]);
        }
        proof {
            if let Some(x) = expected@ {
                reveal_strlit("/>");
                reveal_strlit(">");
                assert(x.children@.len() == 0 && x.text is None) by {
                    if !(x.children@.len() == 0 && x.text is None) {
                        assert(after_attributes(x)[0] == '>');
                    }
                }
                lemma_element_layout(x);
                assert(shape(e) =~= shape(x));
            }
        }
        return Ok((e, start));
    }
    let mut children: Vec<Element> = Vec::new();
    let mut text = String::new();
    let mut p = start;
    let ghost mut k: int = 0;
    let ghost mut text_done: bool = match expected@ {
        Some(x) => x.text is None,
        None => true,
    };
    proof {
        if let Some(x) = expected@ {
            reveal_strlit("/>");
            reveal_strlit(">");
            let tail = after_attributes(x);
            assert(!(x.children@.len() == 0 && x.text is None)) by {
                if x.children@.len() == 0 && x.text is None {
                    assert(tail[0] == '/');
                }
            }
            let body = text_content(x.text) + (children_range(x, 0, x.children@.len() as int)
                + end_tag(x));
            assert(tail =~= seq!['>'] + body);
            lemma_occurs_split(c@, ne as int, attributes_text(x.attributes@), tail);
            lemma_occurs_split(c@, ne + attributes_text(x.attributes@).len(), seq!['>'], body);
            lemma_element_layout(x);
            if x.text is None {
                assert(body =~= children_range(x, 0, x.children@.len() as int) + end_tag(x));
            }
        }
    }
    loop
        invariant
            c@ == s@,
            i < p <= c@.len(),
            c@[i as int] == '<',
            i + 1 < ne <= c@.len(),
            forall|k: int| i + 1 <= k < ne ==> is_name_char(#[trigger] c@[k]),
            name@ == c@.subrange(i + 1, ne as int),
            expected@ matches Some(x) ==> {
                &&& well_formed(x)
                &&& occurs_at(c@, i as int, element_text(x))
                &&& name@ == x.name@
                &&& attribute_pairs(attributes@) == attribute_pairs(x.attributes@)
                &&& 0 <= k <= x.children@.len()
                &&& children@.len() == k
                &&& forall|j: int| 0 <= j < k ==> same_tree(#[trigger] children@[j], x.children@[j])
                &&& if text_done {
                    &&& text@ == crate::xml::text_value(x)
                    &&& occurs_at(
                        c@,
                        p as int,
                        children_range(x, k, x.children@.len() as int) + end_tag(x),
                    )
                    &&& p + (children_range(x, k, x.children@.len() as int) + end_tag(x)).len()
                        == i + element_text(x).len()
                } else {
                    &&& k == 0
                    &&& text@ == Seq::<char>::empty()
                    &&& x.text is Some
                    &&& occurs_at(
                        c@,
                        p as int,
                        text_content(x.text) + (children_range(x, 0, x.children@.len() as int)
                            + end_tag(x)),
                    )
                    &&& p + (text_content(x.text) + (children_range(
                        x,
                        0,
                        x.children@.len() as int,
                    ) + end_tag(x))).len() == i + element_text(x).len()
                }
            },
        decreases c@.len() - p,
    {
        if p >= c.len() {
            return Err(shape_error("element"));
        }
        proof {
            reveal_strlit("</");
            reveal_strlit("<!--");
            reveal_strlit("-->");
            if let Some(x) = expected@ {
                if text_done {
                    lemma_remaining_start(x, k);
                    let rest = children_range(x, k, x.children@.len() as int) + end_tag(x);
                    lemma_occurs_char(c@, p as int, rest, 0);
                    lemma_occurs_char(c@, p as int, rest, 1);
                } else {
                    let t = x.text->Some_0@;
                    assert(t.len() > 0);
                    lemma_escaped_first(t);
                    let rest = escaped(t) + (children_range(x, 0, x.children@.len() as int) + end_tag(x));
                    lemma_occurs_char(c@, p as int, rest, 0);
                }
            }
        }
        if looking_at(c, p, "</") {
            let ce = name_end(c, p + 2);
            proof {
                if let Some(x) = expected@ {
                    assert(c@.subrange(p as int, p + 2)[0] == c@[p as int]);
                    assert(c@.subrange(p as int, p + 2)[1] == c@[p + 1]);
                    assert(text_done);
                    assert(k == x.children@.len()) by {
                        if k < x.children@.len() {
                            lemma_remaining_start(x, k);
                        }
                    }
                    reveal_strlit(">");
                    let n = x.name@;
                    assert(end_tag(x) =~= seq!['<', '/'] + (n + seq!['>']));
                    lemma_occurs_split(c@, p as int, seq!['<', '/'], n + seq!['>']);
                    lemma_occurs_split(c@, p + 2, n, seq!['>']);
                    lemma_occurs_char(c@, p + 2 + n.len(), seq!['>'], 0);
                    assert forall|j: int| 0 <= j < n.len() implies c@[p + 2 + j] == n[j] by {
                        lemma_occurs_char(c@, p + 2, n, j);
                    }
                    if ce < p + 2 + n.len() {
                        assert(is_name_char(n[ce - p - 2]));
                    }
                    assert(ce == p + 2 + n.len());
                }
            }
            if !crate::xml::same_text(s.substring_char(p + 2, ce), name.as_str()) {
                return Err(shape_error("end tag"));
            }
            let q = skip_spaces(c, ce);
            if q >= c.len() || c[q] != '>' {
                return Err(shape_error("end tag"));
            }
            let text = if all_spaces(text.as_str()) {
                None
            } else {
                Some(text)
            };
            let e = Element { name, attributes, children, text };
            assert forall|k: int| 0 <= k < e.name@.len() implies is_name_char(#[trigger] e.name@[k]) by {
                assert(e.name@[k] == c@[i + 1 + k]);
            }
            proof {
                if let Some(x) = expected@ {
                    reveal_strlit("</");
                    reveal_strlit(">");
                    assert(end_tag(x).len() == x.name@.len() + 3);
                    assert(shape(e) =~= shape(x));
                }
            }
            return Ok((e, q + 1));
        } else if looking_at(c, p, "<!--") {
            proof {
                if let Some(x) = expected@ {
                    assert(c@.subrange(p as int, p + 4)[0] == c@[p as int]);
                    assert(c@.subrange(p as int, p + 4)[1] == c@[p + 1]);
                    if text_done && k == x.children@.len() {
                        lemma_remaining_start(x, k);
                    }
                }
            }
            match skip_past(c, p + 4, "-->") {
                Some(q) => {
                    p = q;
                },
                None => {
                    return Err(shape_error("comment"));
                },
            }
        } else if c[p] == '<' {
            let ghost expected_child = match expected@ {
                Some(x) => Some(x.children@[k]),
                None => None,
            };
            proof {
                if let Some(x) = expected@ {
                    let n = x.children@.len() as int;
                    assert(text_done);
                    if k == n {
                        lemma_remaining_start(x, k);
                        reveal_strlit(">");
                        assert(end_tag(x)[1] == '/');
                        assert(c@.subrange(p as int, p + 2) =~= "</"@);
                    }
                    lemma_range_step(x, k, n);
                    let ct = element_text(x.children@[k]);
                    let more = children_range(x, k + 1, n) + end_tag(x);
                    assert(children_range(x, k, n) + end_tag(x) =~= ct + more);
                    lemma_occurs_split(c@, p as int, ct, more);
                }
            }
            let (e, q) = parse_element(s, c, p, Ghost(expected_child))?;
            children.push(e);
            p = q;
            proof {
                if let Some(x) = expected@ {
                    k = k + 1;
                }
            }
        } else {
            let mut q = p;
            while q < c.len() && c[q] != '<'
                invariant
                    p <= q <= c@.len(),
                    forall|m: int| p <= m < q ==> c@[m] != '<',
                decreases c@.len() - q,
            {
                q = q + 1;
            }
            let ghost esc_len: int = match expected@ {
                Some(x) => escaped(crate::xml::text_value(x)).len() as int,
                None => 0,
            };
            proof {
                if let Some(x) = expected@ {
                    let t = x.text->Some_0@;
                    let esc = escaped(t);
                    let rest = children_range(x, 0, x.children@.len() as int) + end_tag(x);
                    lemma_occurs_split(c@, p as int, esc, rest);
                    lemma_escaped_plain(t);
                    lemma_remaining_start(x, 0);
                    lemma_occurs_char(c@, p + esc.len(), rest, 0);
                    if q < p + esc.len() {
                        lemma_occurs_char(c@, p as int, esc, q - p);
                    }
                    if q > p + esc.len() {
                        assert(c@[p + esc.len()] != '<');
                    }
                    assert(q == p + esc.len());
                    assert(s@.subrange(p as int, q as int) == esc);
                    lemma_unescape_escaped(t);
                }
            }
            let t = unescape(s, c, p, q)?;
            text.append(t.as_str());
            p = q;
            proof {
                if let Some(x) = expected@ {
                    text_done = true;
                    assert(text@ =~= crate::xml::text_value(x));
                }
            }
        }
    }
}

/// Skips whitespace, comments and `<?...?>` declarations from `i` on; stops
/// at once before a start tag and at the end of the text.
fn skip_misc(c: &Vec<char>, i: usize) -> (r: Result<usize, DecodeError>)
    requires
        i <= c@.len(),
    ensures
        r matches Ok(j) ==> i <= j <= c@.len(),
        i == c@.len() ==> r == Ok::<usize, DecodeError>(i),
        i + 1 < c@.len() && c@[i as int] == '<' && is_name_char(c@[i + 1]) ==> r == Ok::<
            usize,
            DecodeError,
        >(i),
{
    let m = c.len();
    let mut p = i;
    loop
        invariant
            i <= p <= c@.len(),
            m == c@.len(),
            i == c@.len() ==> p == i,
            i + 1 < c@.len() && c@[i as int] == '<' && is_name_char(c@[i + 1]) ==> p == i,
        decreases c@.len() - p,
    {
        proof {
            reveal_strlit("<?");
            reveal_strlit("?>");
            reveal_strlit("<!--");
            reveal_strlit("-->");
        }
        p = skip_spaces(c, p);
        if looking_at(c, p, "<?") {
            assert(c@.subrange(p as int, p + 2)[1] == c@[p + 1]);
            match skip_past(c, p + 2, "?>") {
                Some(q) => p = q,
                None => return Err(shape_error("declaration")),
            }
        } else if looking_at(c, p, "<!--") {
            assert(c@.subrange(p as int, p + 4)[1] == c@[p + 1]);
            match skip_past(c, p + 4, "-->") {
                Some(q) => p = q,
                None => return Err(shape_error("comment")),
            }
        } else {
            return Ok(p);
        }
    }
}

/// Reads an XML document: one root element, with only whitespace, comments
/// and declarations around it. The written text of a well-formed element
/// always reads back, as an element with the same shapes at every level.
pub fn parse_document(s: &str) -> (r: Result<Element, DecodeError>)
    ensures
        r matches Ok(e) ==> exists|i: int| tag_at(s@, i, e),
        (exists|x: Element| well_formed(x) && s@ == element_text(x)) ==> (r matches Ok(e)
            && same_tree(e, choose|x: Element| well_formed(x) && s@ == element_text(x))),
{
    let c = chars_of(s);
    let ghost expected: Option<Element> = if exists|x: Element|
        well_formed(x) && s@ == element_text(x) {
        Some(choose|x: Element| well_formed(x) && s@ == element_text(x))
    } else {
        None
    };
    proof {
        if let Some(x) = expected {
            assert(c@.subrange(0, element_text(x).len() as int) =~= element_text(x));
            lemma_element_start(x);
        }
    }
    let p = skip_misc(&c, 0)?;
    let (e, q) = parse_element(s, &c, p, Ghost(expected))?;
    let q = skip_misc(&c, q)?;
    if q != c.len() {
        return Err(shape_error("document"));
    }
    Ok(e)
}

/// Writes a well-formed element as text and reads the text back: the
/// element read has the same shapes as `e` at every level.
pub fn reread(e: &Element) -> (r: Result<Element, DecodeError>)
    requires
        well_formed(*e),
    ensures
        r matches Ok(x) && same_tree(x, *e),
{
    let text = crate::xml::to_xml(e);
    let c = chars_of(text.as_str());
    proof {
        assert(c@.subrange(0, element_text(*e).len() as int) =~= element_text(*e));
    }
    let (x, _) = parse_element(text.as_str(), &c, 0, Ghost(Some(*e)))?;
    Ok(x)
}

} // verus!
