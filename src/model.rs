//! The writer as a state machine over mathematical values.
//!
//! Each operation of [`crate::XmlWriter`] is described here by a spec
//! function from the writer's state to the next state and the characters it
//! writes. The sink receives the UTF-8 encoding of those characters.

use vstd::prelude::*;

verus! {

/// The state of an XML writer, apart from its sink.
pub struct WriterView {
    /// The open elements, innermost last: the name, and whether the element
    /// has children.
    pub stack: Seq<(Seq<char>, bool)>,
    /// For each open element, the namespace prefix that was active when it
    /// was begun.
    pub ns_stack: Seq<Option<Seq<char>>>,
    /// The prefix applied to the next element opened.
    pub namespace: Option<Seq<char>>,
    /// Pretty mode (indented, one token per line) rather than compact mode.
    pub pretty: bool,
    /// The start tag of the innermost open element is not yet terminated,
    /// so attributes may still be added to it.
    pub opened: bool,
    /// An indentation has already been placed, so the next one starts on a
    /// new line.
    pub newline: bool,
}

impl WriterView {
    /// The two stacks run in parallel, and an unterminated start tag belongs
    /// to an open element.
    pub open spec fn wf(self) -> bool {
        &&& self.stack.len() == self.ns_stack.len()
        &&& self.opened ==> self.stack.len() > 0
    }
}

/// The state that every sequence of successful operations keeps: below the
/// innermost open element every element has children, and the innermost one
/// is childless exactly while its start tag is open.
pub open spec fn settled(s: WriterView) -> bool {
    &&& s.wf()
    &&& forall|i: int| 0 <= i < s.stack.len() - 1 ==> (#[trigger] s.stack[i]).1
    &&& s.stack.len() > 0 ==> (s.opened <==> !s.stack.last().1)
}

/// The one closing token that ending the innermost element writes: `/>`
/// for a childless element, else its closing tag, on a line of its own in
/// pretty mode (unless text precedes it).
pub open spec fn closing_token(s: WriterView) -> Seq<char>
    recommends
        s.stack.len() > 0,
{
    let n = s.stack.len() - 1;
    if !s.stack[n].1 {
        "/>"@
    } else {
        let ind = if s.pretty && s.newline {
            "\n"@ + spaces((2 * n) as nat)
        } else {
            Seq::empty()
        };
        ind + end_tag(s.ns_stack[n], s.stack[n].0)
    }
}

/// The open elements of `t` are the outermost open elements of `s`, with
/// the namespaces recorded for them: `t` is `s` with some elements closed.
pub open spec fn open_prefix(s: WriterView, t: WriterView) -> bool {
    &&& t.stack.len() <= s.stack.len()
    &&& t.stack == s.stack.take(t.stack.len() as int)
    &&& t.ns_stack == s.ns_stack.take(t.ns_stack.len() as int)
}

/// A fresh writer in the given mode.
pub open spec fn initial(pretty: bool) -> WriterView {
    WriterView {
        stack: Seq::empty(),
        ns_stack: Seq::empty(),
        namespace: None,
        pretty,
        opened: false,
        newline: false,
    }
}

/// `n` spaces.
pub open spec fn spaces(n: nat) -> Seq<char> {
    Seq::new(n, |i: int| ' ')
}

/// The indentation placed before a token: nothing in compact mode; in pretty
/// mode a line break (but not before the first token) and two spaces per open
/// element.
pub open spec fn indent(s: WriterView) -> (WriterView, Seq<char>) {
    if !s.pretty {
        (s, Seq::empty())
    } else if s.newline {
        (s, "\n"@ + spaces((2 * s.stack.len()) as nat))
    } else {
        (WriterView { newline: true, ..s }, spaces((2 * s.stack.len()) as nat))
    }
}

/// Terminates an unterminated start tag: with `>` when children follow, with
/// `/>` when the element stays empty.
pub open spec fn terminate(s: WriterView, has_children: bool) -> (WriterView, Seq<char>) {
    if s.opened {
        (WriterView { opened: false, ..s }, if has_children { ">"@ } else { "/>"@ })
    } else {
        (s, Seq::empty())
    }
}

/// Records that the innermost open element has a child.
pub open spec fn mark_parent(s: WriterView) -> WriterView {
    if s.stack.len() > 0 {
        let i = s.stack.len() - 1;
        WriterView { stack: s.stack.update(i, (s.stack[i].0, true)), ..s }
    } else {
        s
    }
}

/// What comes before any content: the parent's start tag is terminated and
/// the parent is marked as having children.
pub open spec fn enter_content(s: WriterView) -> (WriterView, Seq<char>) {
    let (t, out) = terminate(s, true);
    (mark_parent(t), out)
}

/// The prefix `ns:` of a name in namespace `ns`, or nothing.
pub open spec fn prefix(ns: Option<Seq<char>>) -> Seq<char> {
    match ns {
        Some(p) => p + ":"@,
        None => Seq::empty(),
    }
}

/// The escaped form of one character. Backslashes are doubled only in
/// identifiers (`ident`).
pub open spec fn escape_char(c: char, ident: bool) -> Seq<char> {
    if c == '"' {
        "&quot;"@
    } else if c == '\'' {
        "&apos;"@
    } else if c == '&' {
        "&amp;"@
    } else if c == '<' {
        "&lt;"@
    } else if c == '>' {
        "&gt;"@
    } else if c == '\\' && ident {
        "\\\\"@
    } else {
        seq![c]
    }
}

/// The escaped form of a text, character by character.
pub open spec fn escape(t: Seq<char>, ident: bool) -> Seq<char>
    decreases t.len(),
{
    if t.len() == 0 {
        Seq::empty()
    } else {
        escape(t.drop_last(), ident) + escape_char(t.last(), ident)
    }
}

/// Begins an element: `<ns:name`, its start tag left open.
pub open spec fn begin_elem(s: WriterView, name: Seq<char>) -> (WriterView, Seq<char>) {
    let (s1, o1) = enter_content(s);
    let (s2, o2) = indent(s1);
    (
        WriterView {
            stack: s2.stack.push((name, false)),
            ns_stack: s2.ns_stack.push(s2.namespace),
            opened: true,
            ..s2
        },
        o1 + o2 + "<"@ + prefix(s.namespace) + name,
    )
}

/// The start of a child element: the parent's start tag terminated, the
/// indentation, and `<ns:name` in the active namespace.
pub open spec fn start_tag(s: WriterView, name: Seq<char>) -> (WriterView, Seq<char>) {
    let (s1, o1) = enter_content(s);
    let (s2, o2) = indent(s1);
    (s2, o1 + o2 + "<"@ + prefix(s.namespace) + name)
}

/// A closing tag `</ns:name>`.
pub open spec fn end_tag(ns: Option<Seq<char>>, name: Seq<char>) -> Seq<char> {
    "</"@ + prefix(ns) + name + ">"@
}

/// A self-closing element `<ns:name/>`, not pushed on the stack.
pub open spec fn empty_elem(s: WriterView, name: Seq<char>) -> (WriterView, Seq<char>) {
    let (s1, o1) = start_tag(s, name);
    (s1, o1 + "/>"@)
}

/// An element with escaped text content, `<ns:name>text</name>`.
pub open spec fn elem_text(s: WriterView, name: Seq<char>, text: Seq<char>) -> (
    WriterView,
    Seq<char>,
) {
    let (s1, o1) = start_tag(s, name);
    (s1, o1 + ">"@ + escape(text, false) + end_tag(None, name))
}

/// Ends the innermost open element (which must exist). An element without
/// children was self-closed and gets no closing tag; any other gets
/// `</ns:name>` with the prefix recorded when it was begun.
pub open spec fn end_elem(s: WriterView) -> (WriterView, Seq<char>)
    recommends
        s.wf(),
        s.stack.len() > 0,
{
    let (s1, o1) = terminate(s, false);
    let n = s1.stack.len() - 1;
    let top = s1.stack[n];
    let ns = s1.ns_stack[n];
    let s2 = WriterView { stack: s1.stack.take(n), ns_stack: s1.ns_stack.take(n), ..s1 };
    if !top.1 {
        (s2, o1)
    } else {
        let (s3, o2) = if s2.newline {
            indent(s2)
        } else {
            (s2, Seq::empty())
        };
        (WriterView { newline: true, ..s3 }, o1 + o2 + end_tag(ns, top.0))
    }
}

/// Ends every open element, innermost first.
pub open spec fn close(s: WriterView) -> (WriterView, Seq<char>)
    decreases s.stack.len(),
{
    if s.stack.len() == 0 {
        (s, Seq::empty())
    } else {
        let (s1, o1) = end_elem(s);
        let (s2, o2) = close(s1);
        (s2, o1 + o2)
    }
}

/// Escaped text content, written inline: the next closing tag follows it on
/// the same line.
pub open spec fn text(s: WriterView, t: Seq<char>) -> (WriterView, Seq<char>) {
    let (s1, o1) = enter_content(s);
    (WriterView { newline: false, ..s1 }, o1 + escape(t, false))
}

/// A CDATA section holding `t` unescaped.
pub open spec fn cdata(s: WriterView, t: Seq<char>) -> (WriterView, Seq<char>) {
    let (s1, o1) = enter_content(s);
    let (s2, o2) = indent(s1);
    (s2, o1 + o2 + "<![CDATA["@ + t + "]]>"@)
}

/// A comment holding `t` escaped.
pub open spec fn comment(s: WriterView, t: Seq<char>) -> (WriterView, Seq<char>) {
    let (s1, o1) = enter_content(s);
    let (s2, o2) = indent(s1);
    (s2, o1 + o2 + "<!-- "@ + escape(t, false) + " -->"@)
}

/// An attribute written verbatim: ` name="value"`.
pub open spec fn attr(name: Seq<char>, value: Seq<char>) -> Seq<char> {
    " "@ + name + "=\""@ + value + "\""@
}

/// An attribute with its name and value escaped.
pub open spec fn attr_esc(name: Seq<char>, value: Seq<char>) -> Seq<char> {
    " "@ + escape(name, true) + "=\""@ + escape(value, false) + "\""@
}

/// The attribute name that declares namespace `p`: `xmlns` for the default
/// namespace, `xmlns:p` otherwise.
pub open spec fn xmlns_name(p: Option<Seq<char>>) -> Seq<char> {
    match p {
        Some(p) => "xmlns:"@ + p,
        None => "xmlns"@,
    }
}

/// The declarations of a list of (prefix, URI) pairs, in order.
pub open spec fn ns_decl(m: Seq<(Option<Seq<char>>, Seq<char>)>) -> Seq<char>
    decreases m.len(),
{
    if m.len() == 0 {
        Seq::empty()
    } else {
        ns_decl(m.drop_last()) + attr(xmlns_name(m.last().0), m.last().1)
    }
}

/// The XML declaration with the given encoding.
pub open spec fn dtd(encoding: Seq<char>) -> Seq<char> {
    "<?xml version=\"1.0\" encoding=\""@ + encoding + "\" ?>\n"@
}

} // verus!
