use vstd::prelude::*;

verus! {

#[derive(Clone, Debug, PartialEq, Eq)]
/// One attribute of an element: its qualified name and its unescaped value.
pub struct Attribute {
    pub name: String,
    pub value: String,
}

#[derive(Debug)]
/// One XML node: qualified tag name, ordered attributes, ordered children and
/// optional direct text content.
pub struct Element {
    pub name: String,
    pub attributes: Vec<Attribute>,
    pub children: Vec<Element>,
    pub text: Option<String>,
}

/// The escaped form of one character in attribute values and text.
pub open spec fn escape_char(c: char) -> Seq<char> {
    if c == '&' {
        "&amp;"@
    } else if c == '<' {
        "&lt;"@
    } else if c == '>' {
        "&gt;"@
    } else if c == '"' {
        "&quot;"@
    } else {
        seq![c]
    }
}

pub open spec fn escaped(s: Seq<char>) -> Seq<char>
    decreases s.len(),
{
    if s.len() == 0 {
        Seq::empty()
    } else {
        escaped(s.drop_last()) + escape_char(s.last())
    }
}

pub open spec fn attributes_text(a: Seq<Attribute>) -> Seq<char>
    decreases a.len(),
{
    if a.len() == 0 {
        Seq::empty()
    } else {
        attributes_text(a.drop_last()) + " "@ + a.last().name@ + "=\""@ + escaped(a.last().value@)
            + "\""@
    }
}

pub open spec fn text_content(t: Option<String>) -> Seq<char> {
    match t {
        Some(s) => escaped(s@),
        None => Seq::empty(),
    }
}

/// The XML text of an element: a self-closing tag when it has neither text nor
/// children, otherwise an opening tag, the escaped text, the children in order
/// and the closing tag.
pub open spec fn element_text(e: Element) -> Seq<char>
    decreases e, 1nat, 0int,
{
    let head = "<"@ + e.name@ + attributes_text(e.attributes@);
    if e.children@.len() == 0 && e.text is None {
        head + "/>"@
    } else {
        head + ">"@ + text_content(e.text) + children_text(e, e.children@.len() as int) + "</"@
            + e.name@ + ">"@
    }
}

/// The XML text of the first `n` children of `e`, in order.
pub open spec fn children_text(e: Element, n: int) -> Seq<char>
    decreases e, 0nat, n,
{
    if n <= 0 || n > e.children@.len() {
        Seq::empty()
    } else {
        children_text(e, n - 1) + element_text(e.children@[n - 1])
    }
}

/// Appends the escaped form of `s` to `out`.
pub fn push_escaped(out: &mut String, s: &str)
    ensures
        final(out)@ == old(out)@ + escaped(s@),
{
    let n = s.unicode_len();
    let mut i: usize = 0;
    while i < n
        invariant
            n == s@.len(),
            i <= n,
            out@ == old(out)@ + escaped(s@.subrange(0, i as int)),
        decreases n - i,
    {
        let c = s.get_char(i);
        assert(s@.subrange(0, i + 1).drop_last() == s@.subrange(0, i as int));
        if c == '&' {
            out.append("&amp;");
        } else if c == '<' {
            out.append("&lt;");
        } else if c == '>' {
            out.append("&gt;");
        } else if c == '"' {
            out.append("&quot;");
        } else {
            out.append(s.substring_char(i, i + 1));
            assert(s@.subrange(i as int, i + 1) == seq![c]);
        }
        i = i + 1;
    }
    assert(s@.subrange(0, n as int) == s@);
}

/// Appends the XML text of `e` to `out`.
pub fn write_element(e: &Element, out: &mut String)
    ensures
        final(out)@ == old(out)@ + element_text(*e),
    decreases e,
{
    out.append("<");
    out.append(e.name.as_str());
    let mut i: usize = 0;
    while i < e.attributes.len()
        invariant
            i <= e.attributes@.len(),
            out@ == old(out)@ + "<"@ + e.name@ + attributes_text(e.attributes@.subrange(0, i as int)),
        decreases e.attributes@.len() - i,
    {
        let a = &e.attributes[i];
        assert(e.attributes@.subrange(0, i + 1).drop_last() == e.attributes@.subrange(0, i as int));
        out.append(" ");
        out.append(a.name.as_str());
        out.append("=\"");
        push_escaped(out, a.value.as_str());
        out.append("\"");
        i = i + 1;
    }
    assert(e.attributes@.subrange(0, e.attributes@.len() as int) == e.attributes@);
    if e.children.len() == 0 && e.text.is_none() {
        out.append("/>");
    } else {
        out.append(">");
        match &e.text {
            Some(t) => push_escaped(out, t.as_str()),
            None => {},
        }
        let mut j: usize = 0;
        while j < e.children.len()
            invariant
                j <= e.children@.len(),
                out@ == old(out)@ + "<"@ + e.name@ + attributes_text(e.attributes@) + ">"@
                    + text_content(e.text) + children_text(*e, j as int),
            decreases e.children@.len() - j,
        {
            proof {
                vstd::std_specs::vec::axiom_vec_index_decreases(e.children, j as int);
            }
            write_element(&e.children[j], out);
            j = j + 1;
        }
        out.append("</");
        out.append(e.name.as_str());
        out.append(">");
    }
}

/// The XML text of `e`.
pub fn to_xml(e: &Element) -> (r: String)
    ensures
        r@ == element_text(*e),
{
    let mut out = String::new();
    write_element(e, &mut out);
    out
}

/// Whether two texts hold the same characters.
pub fn same_text(a: &str, b: &str) -> (r: bool)
    ensures
        r == (a@ == b@),
{
    let n = a.unicode_len();
    if n != b.unicode_len() {
        return false;
    }
    let mut i: usize = 0;
    while i < n
        invariant
            n == a@.len() == b@.len(),
            i <= n,
            a@.subrange(0, i as int) == b@.subrange(0, i as int),
        decreases n - i,
    {
        if a.get_char(i) != b.get_char(i) {
            assert(a@[i as int] != b@[i as int]);
            return false;
        }
        assert(a@.subrange(0, i + 1) == a@.subrange(0, i as int).push(a@[i as int]));
        assert(b@.subrange(0, i + 1) == b@.subrange(0, i as int).push(b@[i as int]));
        i = i + 1;
    }
    assert(a@ == a@.subrange(0, n as int));
    assert(b@ == b@.subrange(0, n as int));
    true
}

/// The part of a qualified name after its first `:` scanned from `i`, or the
/// whole name when no `:` follows `i`.
pub open spec fn after_prefix(s: Seq<char>, i: int) -> Seq<char>
    decreases s.len() - i,
{
    if i < 0 || i >= s.len() {
        s
    } else if s[i] == ':' {
        s.subrange(i + 1, s.len() as int)
    } else {
        after_prefix(s, i + 1)
    }
}

/// The local part of a qualified name (`t:Items` has local name `Items`).
pub open spec fn local_name(s: Seq<char>) -> Seq<char> {
    after_prefix(s, 0)
}

/// The local part of a qualified name.
pub fn local_part(s: &str) -> (r: &str)
    ensures
        r@ == local_name(s@),
{
    let n = s.unicode_len();
    let mut i: usize = 0;
    while i < n
        invariant
            n == s@.len(),
            i <= n,
            after_prefix(s@, i as int) == local_name(s@),
        decreases n - i,
    {
        if s.get_char(i) == ':' {
            return s.substring_char(i + 1, n);
        }
        i = i + 1;
    }
    s
}

/// Whether the element's tag has the local name `name`.
pub open spec fn is_named(e: Element, name: Seq<char>) -> bool {
    local_name(e.name@) == name
}

/// The index of the first element of `c` from `i` on whose tag has the local
/// name `name`.
pub open spec fn first_named(c: Seq<Element>, name: Seq<char>, i: int) -> Option<int>
    decreases c.len() - i,
{
    if i < 0 || i >= c.len() {
        None
    } else if is_named(c[i], name) {
        Some(i)
    } else {
        first_named(c, name, i + 1)
    }
}

/// The first child of `e` with the local name `name`.
pub open spec fn child(e: Element, name: Seq<char>) -> Option<Element> {
    match first_named(e.children@, name, 0) {
        Some(i) => Some(e.children@[i]),
        None => None,
    }
}

/// The index of the first child of `e` with the local name `name`.
pub fn find_child(e: &Element, name: &str) -> (r: Option<usize>)
    ensures
        r matches Some(i) ==> first_named(e.children@, name@, 0) == Some(i as int) && i
            < e.children@.len(),
        r is None ==> first_named(e.children@, name@, 0) is None,
{
    let mut i: usize = 0;
    while i < e.children.len()
        invariant
            i <= e.children@.len(),
            first_named(e.children@, name@, i as int) == first_named(e.children@, name@, 0),
        decreases e.children@.len() - i,
    {
        if same_text(local_part(e.children[i].name.as_str()), name) {
            return Some(i);
        }
        i = i + 1;
    }
    None
}

/// The index of the first attribute of `a` from `i` on named exactly `name`.
pub open spec fn first_attribute(a: Seq<Attribute>, name: Seq<char>, i: int) -> Option<int>
    decreases a.len() - i,
{
    if i < 0 || i >= a.len() {
        None
    } else if a[i].name@ == name {
        Some(i)
    } else {
        first_attribute(a, name, i + 1)
    }
}

/// The value of the first attribute of `e` named `name`.
pub open spec fn attribute(e: Element, name: Seq<char>) -> Option<Seq<char>> {
    match first_attribute(e.attributes@, name, 0) {
        Some(i) => Some(e.attributes@[i].value@),
        None => None,
    }
}

/// The value of the first attribute of `e` named `name`.
pub fn find_attribute<'a>(e: &'a Element, name: &str) -> (r: Option<&'a String>)
    ensures
        r matches Some(v) ==> attribute(*e, name@) == Some(v@),
        r is None ==> attribute(*e, name@) is None,
{
    let mut i: usize = 0;
    while i < e.attributes.len()
        invariant
            i <= e.attributes@.len(),
            first_attribute(e.attributes@, name@, i as int) == first_attribute(
                e.attributes@,
                name@,
                0,
            ),
        decreases e.attributes@.len() - i,
    {
        if same_text(e.attributes[i].name.as_str(), name) {
            return Some(&e.attributes[i].value);
        }
        i = i + 1;
    }
    None
}

/// The direct text of an element, empty when it has none.
pub open spec fn text_value(e: Element) -> Seq<char> {
    match e.text {
        Some(t) => t@,
        None => Seq::empty(),
    }
}

/// The direct text of an element, empty when it has none.
pub fn text_of(e: &Element) -> (r: String)
    ensures
        r@ == text_value(*e),
{
    match &e.text {
        Some(t) => t.clone(),
        None => String::new(),
    }
}

/// Appends a childless element to a list of childless elements.
pub fn push_leaf(c: &mut Vec<Element>, e: Element)
    requires
        e.children@.len() == 0,
        all_leaves(old(c)@),
    ensures
        final(c)@ == old(c)@.push(e),
        shapes(final(c)@) == shapes(old(c)@).push(shape(e)),
        all_leaves(final(c)@),
{
    c.push(e);
    assert(shapes(c@) =~= shapes(old(c)@).push(shape(e)));
}

/// The namespace URI of the protocol's outer envelope.
pub const SOAP_NS_URI: &'static str = "http://schemas.xmlsoap.org/soap/envelope/";

/// The namespace URI of operation messages; the default namespace of a request root.
pub const MESSAGES_NS_URI: &'static str = "http://schemas.microsoft.com/exchange/services/2006/messages";

/// The namespace URI of the shared schema types, written with the `t` prefix.
pub const TYPES_NS_URI: &'static str = "http://schemas.microsoft.com/exchange/services/2006/types";

/// What an element is apart from its children: name, attributes as
/// (name, value) pairs, and text.
pub struct Shape {
    pub name: Seq<char>,
    pub attributes: Seq<(Seq<char>, Seq<char>)>,
    pub text: Option<Seq<char>>,
}

pub open spec fn attribute_pairs(a: Seq<Attribute>) -> Seq<(Seq<char>, Seq<char>)> {
    a.map_values(|x: Attribute| (x.name@, x.value@))
}

pub open spec fn shape(e: Element) -> Shape {
    Shape {
        name: e.name@,
        attributes: attribute_pairs(e.attributes@),
        text: match e.text {
            Some(t) => Some(t@),
            None => None,
        },
    }
}

/// `e` has the shape `s` and no children.
pub open spec fn is_leaf(e: Element, s: Shape) -> bool {
    shape(e) == s && e.children@.len() == 0
}

/// The shapes of a sequence of elements.
pub open spec fn shapes(c: Seq<Element>) -> Seq<Shape> {
    c.map_values(|x: Element| shape(x))
}

/// Every element of `c` has no children.
pub open spec fn all_leaves(c: Seq<Element>) -> bool {
    forall|i: int| 0 <= i < c.len() ==> (#[trigger] c[i]).children@.len() == 0
}

/// A shape with no attributes and no text.
pub open spec fn bare(name: Seq<char>) -> Shape {
    Shape { name, attributes: Seq::empty(), text: None }
}

/// A shape with text and no attributes.
pub open spec fn texted(name: Seq<char>, text: Seq<char>) -> Shape {
    Shape { name, attributes: Seq::empty(), text: Some(text) }
}

/// The qualified name of a schema type element.
pub open spec fn types_name(local: Seq<char>) -> Seq<char> {
    "t:"@ + local
}

/// The qualified name of an element written with the messages prefix.
pub open spec fn messages_name(local: Seq<char>) -> Seq<char> {
    "m:"@ + local
}

/// The qualified name `t:local`.
pub fn types_tag(local: &str) -> (r: String)
    ensures
        r@ == types_name(local@),
{
    let mut r = String::from_str("t:");
    r.append(local);
    r
}

/// The qualified name `m:local`.
pub fn messages_tag(local: &str) -> (r: String)
    ensures
        r@ == messages_name(local@),
{
    let mut r = String::from_str("m:");
    r.append(local);
    r
}

/// An attribute with the given name and value.
pub fn new_attribute(name: &str, value: String) -> (r: Attribute)
    ensures
        r.name@ == name@,
        r.value@ == value@,
{
    Attribute { name: String::from_str(name), value }
}

/// An element with no attributes, no children and no text.
pub fn new_element(name: String) -> (r: Element)
    ensures
        is_leaf(r, bare(name@)),
{
    let r = Element { name, attributes: Vec::new(), children: Vec::new(), text: None };
    assert(attribute_pairs(r.attributes@) =~= Seq::empty());
    r
}

/// An element that holds only text.
pub fn text_element(name: String, text: String) -> (r: Element)
    ensures
        is_leaf(r, texted(name@, text@)),
{
    let r = Element { name, attributes: Vec::new(), children: Vec::new(), text: Some(text) };
    assert(attribute_pairs(r.attributes@) =~= Seq::empty());
    r
}

proof fn lemma_first_attribute_from(a: Seq<Attribute>, j: int, k: int)
    requires
        0 <= j <= k < a.len(),
        forall|i: int| j <= i < k ==> (#[trigger] a[i]).name@ != a[k].name@,
    ensures
        first_attribute(a, a[k].name@, j) == Some(k),
    decreases k - j,
{
    if j < k {
        lemma_first_attribute_from(a, j + 1, k);
    }
}

/// An attribute whose name no earlier attribute has is the one found by name.
pub proof fn lemma_attribute_found(e: Element, k: int)
    requires
        0 <= k < e.attributes@.len(),
        forall|i: int|
            0 <= i < k ==> (#[trigger] e.attributes@[i]).name@ != e.attributes@[k].name@,
    ensures
        attribute(e, e.attributes@[k].name@) == Some(e.attributes@[k].value@),
{
    lemma_first_attribute_from(e.attributes@, 0, k);
}

proof fn lemma_no_attribute_from(a: Seq<Attribute>, name: Seq<char>, j: int)
    requires
        0 <= j <= a.len(),
        forall|i: int| 0 <= i < a.len() ==> (#[trigger] a[i]).name@ != name,
    ensures
        first_attribute(a, name, j) is None,
    decreases a.len() - j,
{
    if j < a.len() {
        lemma_no_attribute_from(a, name, j + 1);
    }
}

/// A name that no attribute has is not found.
pub proof fn lemma_attribute_absent(e: Element, name: Seq<char>)
    requires
        forall|i: int| 0 <= i < e.attributes@.len() ==> (#[trigger] e.attributes@[i]).name@ != name,
    ensures
        attribute(e, name) is None,
{
    lemma_no_attribute_from(e.attributes@, name, 0);
}

proof fn lemma_first_named_from(c: Seq<Element>, j: int, k: int)
    requires
        0 <= j <= k < c.len(),
        forall|i: int|
            j <= i < k ==> local_name((#[trigger] c[i]).name@) != local_name(c[k].name@),
    ensures
        first_named(c, local_name(c[k].name@), j) == Some(k),
    decreases k - j,
{
    if j < k {
        lemma_first_named_from(c, j + 1, k);
    }
}

/// A child whose local name no earlier child has is the one found by name.
pub proof fn lemma_child_found(e: Element, k: int)
    requires
        0 <= k < e.children@.len(),
        forall|i: int|
            0 <= i < k ==> local_name((#[trigger] e.children@[i]).name@) != local_name(
                e.children@[k].name@,
            ),
    ensures
        child(e, local_name(e.children@[k].name@)) == Some(e.children@[k]),
{
    lemma_first_named_from(e.children@, 0, k);
}

proof fn lemma_none_named_from(c: Seq<Element>, name: Seq<char>, j: int)
    requires
        0 <= j <= c.len(),
        forall|i: int| 0 <= i < c.len() ==> local_name((#[trigger] c[i]).name@) != name,
    ensures
        first_named(c, name, j) is None,
    decreases c.len() - j,
{
    if j < c.len() {
        lemma_none_named_from(c, name, j + 1);
    }
}

/// A local name that no child has is not found.
pub proof fn lemma_child_absent(e: Element, name: Seq<char>)
    requires
        forall|i: int|
            0 <= i < e.children@.len() ==> local_name((#[trigger] e.children@[i]).name@) != name,
    ensures
        child(e, name) is None,
{
    lemma_none_named_from(e.children@, name, 0);
}

/// The local name of `t:x` is `x`.
pub proof fn lemma_types_local(x: Seq<char>)
    ensures
        local_name(types_name(x)) == x,
{
    reveal_strlit("t:");
    let s = types_name(x);
    assert(s[0] == 't' && s[1] == ':');
    assert(after_prefix(s, 1) == s.subrange(2, s.len() as int));
    assert(s.subrange(2, s.len() as int) =~= x);
}

/// The local name of `p:x` is `x` for a prefix `p` without `:`.
pub proof fn lemma_local_after(p: Seq<char>, x: Seq<char>)
    requires
        p.len() >= 2,
        p.last() == ':',
        forall|k: int| 0 <= k < p.len() - 1 ==> p[k] != ':',
    ensures
        local_name(p + x) == x,
{
    let s = p + x;
    let n = p.len() - 1;
    assert forall|j: int| 0 <= j <= n implies after_prefix(s, j) == after_prefix(s, n) by {
        lemma_after_prefix_skip(s, j, n);
    }
    assert(s[n] == ':');
    assert(s.subrange(n + 1, s.len() as int) =~= x);
}

proof fn lemma_after_prefix_skip(s: Seq<char>, j: int, n: int)
    requires
        0 <= j <= n < s.len(),
        forall|k: int| j <= k < n ==> s[k] != ':',
    ensures
        after_prefix(s, j) == after_prefix(s, n),
    decreases n - j,
{
    if j < n {
        lemma_after_prefix_skip(s, j + 1, n);
    }
}

/// The local name of `m:x` is `x`.
pub proof fn lemma_messages_local(x: Seq<char>)
    ensures
        local_name(messages_name(x)) == x,
{
    reveal_strlit("m:");
    let s = messages_name(x);
    assert(s[0] == 'm' && s[1] == ':');
    assert(after_prefix(s, 1) == s.subrange(2, s.len() as int));
    assert(s.subrange(2, s.len() as int) =~= x);
}

/// Text children with distinct local names are each found by name.
pub proof fn lemma_text_children(e: Element, locals: Seq<Seq<char>>, texts: Seq<Seq<char>>)
    requires
        locals.len() == texts.len(),
        locals.no_duplicates(),
        shapes(e.children@) == Seq::new(
            locals.len(),
            |i: int| texted(types_name(locals[i]), texts[i]),
        ),
    ensures
        forall|i: int|
            0 <= i < locals.len() ==> crate::fields::child_text(e, #[trigger] locals[i]) == Some(
                texts[i],
            ),
{
    let c = e.children@;
    assert(shapes(c).len() == c.len());
    assert(c.len() == locals.len());
    assert forall|k: int| 0 <= k < locals.len() implies crate::fields::child_text(
        e,
        #[trigger] locals[k],
    ) == Some(texts[k]) by {
        assert(shapes(c)[k] == shape(c[k]));
        lemma_types_local(locals[k]);
        assert forall|i: int| 0 <= i < k implies local_name((#[trigger] c[i]).name@) != local_name(
            c[k].name@,
        ) by {
            assert(shapes(c)[i] == shape(c[i]));
            lemma_types_local(locals[i]);
        }
        lemma_child_found(e, k);
    }
}

/// Attributes with distinct names are each found by name.
pub proof fn lemma_attributes_found(e: Element, names: Seq<Seq<char>>, values: Seq<Seq<char>>)
    requires
        names.len() == values.len(),
        names.no_duplicates(),
        attribute_pairs(e.attributes@) == Seq::new(names.len(), |i: int| (names[i], values[i])),
    ensures
        forall|i: int|
            0 <= i < names.len() ==> attribute(e, #[trigger] names[i]) == Some(values[i]),
{
    let a = e.attributes@;
    assert(attribute_pairs(a).len() == a.len());
    assert(a.len() == names.len());
    assert forall|k: int| 0 <= k < names.len() implies attribute(e, #[trigger] names[k]) == Some(
        values[k],
    ) by {
        assert(attribute_pairs(a)[k] == (a[k].name@, a[k].value@));
        assert forall|i: int| 0 <= i < k implies (#[trigger] a[i]).name@ != a[k].name@ by {
            assert(attribute_pairs(a)[i] == (a[i].name@, a[i].value@));
        }
        lemma_attribute_found(e, k);
    }
}

} // verus!
