//! The XML writer.

use vstd::prelude::*;
use vstd::utf8::*;

use crate::encoding::{encode_char, lemma_append_encoded, lemma_ascii_len, lemma_encode_utf8_concat};
use crate::error::Error;
use crate::laws::lemma_escape_concat;
use crate::model;
use crate::model::WriterView;
use crate::write::{bytes_mut_contents, lemma_take_append, partly_written, Write};

verus! {

broadcast use {lemma_encode_utf8_concat, lemma_append_encoded, lemma_take_append};

/// The characters of an optional string.
pub open spec fn opt_view(o: Option<&str>) -> Option<Seq<char>> {
    match o {
        Some(s) => Some(s@),
        None => None,
    }
}

/// The (prefix, URI) pairs of a list of namespace declarations.
pub open spec fn decls_view(m: Seq<(Option<&str>, &str)>) -> Seq<(Option<Seq<char>>, Seq<char>)> {
    m.map_values(|d: (Option<&str>, &str)| (opt_view(d.0), d.1@))
}

/// Declarations are written one after another.
proof fn lemma_ns_decl_concat(
    a: Seq<(Option<Seq<char>>, Seq<char>)>,
    b: Seq<(Option<Seq<char>>, Seq<char>)>,
)
    ensures
        model::ns_decl(a + b) == model::ns_decl(a) + model::ns_decl(b),
    decreases b.len(),
{
    if b.len() == 0 {
        assert(a + b =~= a);
        assert(model::ns_decl(a) + model::ns_decl(b) =~= model::ns_decl(a));
    } else {
        assert((a + b).drop_last() =~= a + b.drop_last());
        assert((a + b).last() == b.last());
        lemma_ns_decl_concat(a, b.drop_last());
        assert(model::ns_decl(a + b) =~= model::ns_decl(a) + model::ns_decl(b));
    }
}

/// Every state has all its elements open.
proof fn lemma_open_prefix_refl(s: WriterView)
    ensures
        model::open_prefix(s, s),
{
    assert(s.stack.take(s.stack.len() as int) =~= s.stack);
    assert(s.ns_stack.take(s.ns_stack.len() as int) =~= s.ns_stack);
}

/// Closing some elements and then more is closing some elements.
proof fn lemma_open_prefix_trans(a: WriterView, b: WriterView, c: WriterView)
    requires
        a.wf(),
        b.wf(),
        c.wf(),
        model::open_prefix(a, b),
        model::open_prefix(b, c),
    ensures
        model::open_prefix(a, c),
{
    assert(c.stack =~= a.stack.take(c.stack.len() as int));
    assert(c.ns_stack =~= a.ns_stack.take(c.ns_stack.len() as int));
}

/// A streaming XML writer over the sink `W`.
///
/// Elements without children are closed as `<name/>`. In pretty mode every
/// element starts on a line of its own, indented by two spaces per open
/// ancestor, and closing tags stand on their own line.
pub struct XmlWriter<'a, W: Write> {
    /// The open elements, innermost last, each with whether it has children.
    stack: Vec<(&'a str, bool)>,
    /// The namespace active when each open element was begun.
    ns_stack: Vec<Option<&'a str>>,
    /// The sink that receives the output.
    buffer: W,
    /// The namespace of the elements begun next, if any.
    namespace: Option<&'a str>,
    pretty: bool,
    /// The innermost start tag is not yet terminated.
    opened: bool,
    /// An indentation has been placed already.
    newline: bool,
}

impl<'a, W: Write> View for XmlWriter<'a, W> {
    type V = WriterView;

    closed spec fn view(&self) -> WriterView {
        WriterView {
            stack: self.stack@.map_values(|e: (&'a str, bool)| (e.0@, e.1)),
            ns_stack: self.ns_stack@.map_values(|o: Option<&'a str>| opt_view(o)),
            namespace: opt_view(self.namespace),
            pretty: self.pretty,
            opened: self.opened,
            newline: self.newline,
        }
    }
}

impl<'a, W: Write> XmlWriter<'a, W> {
    /// The sink.
    pub closed spec fn sink(&self) -> W {
        self.buffer
    }

    /// `after` is `before` having taken the step `effect`: the state is
    /// well formed whatever happened; on success the state is `effect.0` and
    /// the sink has received the UTF-8 encoding of `effect.1`; on failure it
    /// has received a prefix of that encoding; and where the sink promised
    /// room for those bytes, the step succeeded.
    pub open spec fn stepped(
        before: &Self,
        after: &Self,
        effect: (WriterView, Seq<char>),
        r: Result<(), Error>,
    ) -> bool {
        &&& after@.wf()
        &&& r is Ok ==> after@ == effect.0 && after.sink().written() == before.sink().written()
            + encode_utf8(effect.1)
        &&& r is Err ==> partly_written(
            before.sink().written(),
            after.sink().written(),
            encode_utf8(effect.1),
        )
        &&& encode_utf8(effect.1).len() <= before.sink().room() ==> r is Ok
            && after.sink().room() == before.sink().room() - encode_utf8(effect.1).len()
    }

    /// Creates a writer in compact mode: no indentation and no line breaks.
    pub fn compact_mode(buffer: W) -> (r: Self)
        ensures
            r@ == model::initial(false),
            r.sink() == buffer,
    {
        let r = XmlWriter {
            stack: Vec::new(),
            ns_stack: Vec::new(),
            buffer,
            namespace: None,
            pretty: false,
            opened: false,
            newline: false,
        };
        assert(r@.stack =~= Seq::<(Seq<char>, bool)>::empty());
        assert(r@.ns_stack =~= Seq::<Option<Seq<char>>>::empty());
        r
    }

    /// Creates a writer in pretty mode: each element on its own line,
    /// indented by two spaces per level.
    pub fn pretty_mode(buffer: W) -> (r: Self)
        ensures
            r@ == model::initial(true),
            r.sink() == buffer,
    {
        let r = XmlWriter {
            stack: Vec::new(),
            ns_stack: Vec::new(),
            buffer,
            namespace: None,
            pretty: true,
            opened: false,
            newline: false,
        };
        assert(r@.stack =~= Seq::<(Seq<char>, bool)>::empty());
        assert(r@.ns_stack =~= Seq::<Option<Seq<char>>>::empty());
        r
    }

    /// Switches to compact mode for what is written from now on.
    pub fn set_compact_mode(&mut self)
        ensures
            final(self)@ == (WriterView { pretty: false, ..old(self)@ }),
            final(self).sink() == old(self).sink(),
    {
        self.pretty = false;
    }

    /// Switches to pretty mode for what is written from now on.
    pub fn set_pretty_mode(&mut self)
        ensures
            final(self)@ == (WriterView { pretty: true, ..old(self)@ }),
            final(self).sink() == old(self).sink(),
    {
        self.pretty = true;
    }

    /// The namespace of the elements begun next.
    pub fn namespace(&self) -> (r: Option<&'a str>)
        ensures
            opt_view(r) == self@.namespace,
    {
        self.namespace
    }

    /// Puts the elements begun from now on into `namespace`. Elements already
    /// open keep theirs.
    pub fn set_namespace(&mut self, namespace: &'a str)
        ensures
            final(self)@ == (WriterView { namespace: Some(namespace@), ..old(self)@ }),
            final(self).sink() == old(self).sink(),
    {
        self.namespace = Some(namespace);
    }

    /// Begins elements without a namespace from now on.
    pub fn unset_namespace(&mut self)
        ensures
            final(self)@ == (WriterView { namespace: None, ..old(self)@ }),
            final(self).sink() == old(self).sink(),
    {
        self.namespace = None;
    }

    /// Writes `bytes` to the sink.
    fn write_slice(&mut self, bytes: &[u8]) -> (r: Result<(), Error>)
        requires
            old(self)@.wf(),
        ensures
            final(self)@ == old(self)@,
            r is Ok ==> final(self).sink().written() == old(self).sink().written() + bytes@,
            r is Err ==> partly_written(old(self).sink().written(), final(self).sink().written(), bytes@),
            bytes@.len() <= old(self).sink().room() ==> r is Ok && final(self).sink().room()
                == old(self).sink().room() - bytes@.len(),
    {
        self.buffer.write_all(bytes)
    }

    /// Writes `text` to the sink as it stands, without escaping. What comes
    /// out need not be well-formed XML.
    pub fn write(&mut self, text: &str) -> (r: Result<(), Error>)
        requires
            old(self)@.wf(),
        ensures
            final(self)@ == old(self)@,
            Self::stepped(old(self), final(self), (old(self)@, text@), r),
    {
        self.write_slice(text.as_bytes())
    }

    /// Writes one character.
    fn write_char(&mut self, c: char) -> (r: Result<(), Error>)
        requires
            old(self)@.wf(),
        ensures
            final(self)@ == old(self)@,
            Self::stepped(old(self), final(self), (old(self)@, seq![c]), r),
    {
        let (b, n) = encode_char(c);
        self.write_slice(&b[0..n])
    }
    /// Places the indentation of pretty mode.
    #[verifier::rlimit(40)]
    fn indent(&mut self) -> (r: Result<(), Error>)
        requires
            old(self)@.wf(),
        ensures
            final(self)@.stack == old(self)@.stack,
            final(self)@.ns_stack == old(self)@.ns_stack,
            Self::stepped(old(self), final(self), model::indent(old(self)@), r),
    {
        if self.pretty {
            let ghost head: Seq<char> = if self.newline {
                "\n"@
            } else {
                Seq::empty()
            };
            if self.newline {
                self.write("\n")?;
            } else {
                self.newline = true;
                assert(self.sink().written() =~= old(self).sink().written() + encode_utf8(head));
            }
            let ghost start = *self;
            let n = self.stack.len();
            proof {
                lemma_ascii_len(model::spaces((2 * n) as nat));
            }
            for i in 0..n
                invariant
                    n == self.stack@.len(),
                    start@.wf(),
                    model::indent(old(self)@) == (start@, head + model::spaces((2 * n) as nat)),
                    Self::stepped(old(self), &start, (start@, head), Ok(())),
                    Self::stepped(&start, self, (start@, model::spaces((2 * i) as nat)), Ok(())),
                    encode_utf8(model::spaces((2 * n) as nat)).len() == 2 * n,
            {
                proof {
                    reveal_strlit("  ");
                    assert(model::spaces((2 * (i + 1)) as nat) =~= model::spaces((2 * i) as nat)
                        + "  "@);
                    assert(model::spaces((2 * n) as nat) =~= model::spaces((2 * (i + 1)) as nat)
                        + model::spaces((2 * (n - i - 1)) as nat));
                    lemma_ascii_len(model::spaces((2 * i) as nat));
                    lemma_ascii_len(model::spaces((2 * (i + 1)) as nat));
                }
                let r = self.write("  ");
                if r.is_err() {
                    return r;
                }
            }
        } else {
            assert(self.sink().written() =~= old(self).sink().written() + encode_utf8(Seq::empty()));
        }
        Ok(())
    }

    /// Terminates the innermost start tag, if it is still open.
    fn close_elem(&mut self, has_children: bool) -> (r: Result<(), Error>)
        requires
            old(self)@.wf(),
        ensures
            final(self)@.stack == old(self)@.stack,
            final(self)@.ns_stack == old(self)@.ns_stack,
            Self::stepped(old(self), final(self), model::terminate(old(self)@, has_children), r),
    {
        if self.opened {
            if has_children {
                self.write(">")?;
            } else {
                self.write("/>")?;
            }
            self.opened = false;
        }
        Ok(())
    }

    /// Marks the innermost open element as having children.
    fn mark_parent(&mut self)
        requires
            old(self)@.wf(),
        ensures
            final(self)@ == model::mark_parent(old(self)@),
            final(self).sink() == old(self).sink(),
    {
        let n = self.stack.len();
        if n > 0 {
            let name = self.stack[n - 1].0;
            self.stack.set(n - 1, (name, true));
            assert(self@.stack =~= model::mark_parent(old(self)@).stack);
        }
    }

    /// Terminates the parent's start tag and marks it as having children.
    fn enter_content(&mut self) -> (r: Result<(), Error>)
        requires
            old(self)@.wf(),
        ensures
            Self::stepped(old(self), final(self), model::enter_content(old(self)@), r),
    {
        self.close_elem(true)?;
        self.mark_parent();
        Ok(())
    }

    /// Writes the prefix `ns:`, if there is a namespace.
    fn ns_prefix(&mut self, namespace: Option<&str>) -> (r: Result<(), Error>)
        requires
            old(self)@.wf(),
        ensures
            final(self)@ == old(self)@,
            Self::stepped(old(self), final(self), (old(self)@, model::prefix(opt_view(namespace))), r),
    {
        if let Some(ns) = namespace {
            self.write(ns)?;
            self.write(":")?;
        }
        Ok(())
    }

    /// Writes the start of a child element, `<ns:name`, after terminating
    /// the parent's start tag and indenting.
    #[verifier::rlimit(40)]
    fn start_tag(&mut self, name: &str) -> (r: Result<(), Error>)
        requires
            old(self)@.wf(),
        ensures
            Self::stepped(old(self), final(self), model::start_tag(old(self)@, name@), r),
    {
        self.enter_content()?;
        self.indent()?;
        self.write("<")?;
        let ns = self.namespace;
        self.ns_prefix(ns)?;
        self.write(name)
    }

    /// Writes a closing tag `</ns:name>`.
    fn end_tag(&mut self, namespace: Option<&str>, name: &str) -> (r: Result<(), Error>)
        requires
            old(self)@.wf(),
        ensures
            final(self)@ == old(self)@,
            Self::stepped(
                old(self),
                final(self),
                (old(self)@, model::end_tag(opt_view(namespace), name@)),
                r,
            ),
    {
        self.write("</")?;
        self.ns_prefix(namespace)?;
        self.write(name)?;
        self.write(">")
    }

    /// Begins an element: writes `<ns:name` and leaves the start tag open
    /// for attributes. An unterminated parent start tag is terminated first.
    #[verifier::rlimit(40)]
    pub fn begin_elem(&mut self, name: &'a str) -> (r: Result<(), Error>)
        requires
            old(self)@.wf(),
        ensures
            Self::stepped(old(self), final(self), model::begin_elem(old(self)@, name@), r),
    {
        self.enter_content()?;
        self.indent()?;
        let ghost s2 = self@;
        self.stack.push((name, false));
        self.ns_stack.push(self.namespace);
        assert(self@.stack =~= s2.stack.push((name@, false)));
        assert(self@.ns_stack =~= s2.ns_stack.push(s2.namespace));
        self.write("<")?;
        self.opened = true;
        let ns = self.namespace;
        self.ns_prefix(ns)?;
        self.write(name)
    }
    /// Writes one character in escaped form.
    fn escape_char(&mut self, c: char, ident: bool) -> (r: Result<(), Error>)
        requires
            old(self)@.wf(),
        ensures
            final(self)@ == old(self)@,
            Self::stepped(old(self), final(self), (old(self)@, model::escape_char(c, ident)), r),
    {
        if c == '"' {
            self.write("&quot;")
        } else if c == '\'' {
            self.write("&apos;")
        } else if c == '&' {
            self.write("&amp;")
        } else if c == '<' {
            self.write("&lt;")
        } else if c == '>' {
            self.write("&gt;")
        } else if c == '\\' && ident {
            self.write("\\\\")
        } else {
            self.write_char(c)
        }
    }

    /// Writes `text` escaped; backslashes are doubled when `ident` holds.
    fn escape(&mut self, text: &str, ident: bool) -> (r: Result<(), Error>)
        requires
            old(self)@.wf(),
        ensures
            final(self)@ == old(self)@,
            Self::stepped(old(self), final(self), (old(self)@, model::escape(text@, ident)), r),
    {
        for c in it: text.chars()
            invariant
                it.seq() == text@,
                self@ == old(self)@,
                Self::stepped(
                    old(self),
                    self,
                    (old(self)@, model::escape(text@.take(it.index() as int), ident)),
                    Ok(()),
                ),
        {
            let ghost k = it.index() as int;
            proof {
                assert(text@.take(k + 1).drop_last() =~= text@.take(k));
                assert(text@ =~= text@.take(k + 1) + text@.skip(k + 1));
                lemma_escape_concat(text@.take(k + 1), text@.skip(k + 1), ident);
            }
            let r = self.escape_char(c, ident);
            if r.is_err() {
                return r;
            }
        }
        proof {
            assert(text@.take(text@.len() as int) =~= text@);
        }
        Ok(())
    }
    /// Writes the XML declaration `<?xml version="1.0" encoding="..." ?>`
    /// and a line break.
    pub fn dtd(&mut self, encoding: &str) -> (r: Result<(), Error>)
        requires
            old(self)@.wf(),
        ensures
            Self::stepped(old(self), final(self), (old(self)@, model::dtd(encoding@)), r),
    {
        self.write("<?xml version=\"1.0\" encoding=\"")?;
        self.write(encoding)?;
        self.write("\" ?>\n")
    }

    /// Writes one namespace declaration as an attribute.
    fn xmlns_attr(&mut self, prefix: Option<&str>, uri: &str) -> (r: Result<(), Error>)
        requires
            old(self)@.wf(),
        ensures
            Self::stepped(
                old(self),
                final(self),
                (old(self)@, model::attr(model::xmlns_name(opt_view(prefix)), uri@)),
                r,
            ),
    {
        self.write(" ")?;
        match prefix {
            Some(p) => {
                self.write("xmlns:")?;
                self.write(p)?;
            },
            None => {
                self.write("xmlns")?;
            },
        }
        self.write("=\"")?;
        self.write(uri)?;
        self.write("\"")
    }

    /// Declares namespaces on the open start tag: `xmlns="uri"` for a pair
    /// without prefix, `xmlns:prefix="uri"` otherwise, in the order given.
    /// Fails with [`Error::OpenNamespaceWithoutElement`] when no start tag is
    /// open.
    #[verifier::rlimit(40)]
    pub fn ns_decl(&mut self, ns_map: &Vec<(Option<&'a str>, &'a str)>) -> (r: Result<(), Error>)
        requires
            old(self)@.wf(),
        ensures
            !old(self)@.opened ==> r == Err::<(), Error>(Error::OpenNamespaceWithoutElement)
                && *final(self) == *old(self),
            old(self)@.opened ==> Self::stepped(
                old(self),
                final(self),
                (old(self)@, model::ns_decl(decls_view(ns_map@))),
                r,
            ),
    {
        if !self.opened {
            return Err(Error::OpenNamespaceWithoutElement);
        }
        let ghost m = decls_view(ns_map@);
        for i in 0..ns_map.len()
            invariant
                old(self)@.opened,
                m == decls_view(ns_map@),
                Self::stepped(old(self), self, (old(self)@, model::ns_decl(m.take(i as int))), Ok(())),
        {
            let (prefix, uri) = ns_map[i];
            proof {
                let k = i as int;
                assert(m[k] == (opt_view(prefix), uri@));
                assert(m.take(k + 1).drop_last() =~= m.take(k));
                assert(m.take(k + 1).last() == m[k]);
                assert(m =~= m.take(k + 1) + m.skip(k + 1));
                lemma_ns_decl_concat(m.take(k + 1), m.skip(k + 1));
            }
            let r = self.xmlns_attr(prefix, uri);
            if r.is_err() {
                return r;
            }
        }
        proof {
            assert(m.take(m.len() as int) =~= m);
        }
        Ok(())
    }

    /// Writes a self-closing element `<ns:name/>` as a child of the innermost
    /// open element.
    pub fn elem(&mut self, name: &str) -> (r: Result<(), Error>)
        requires
            old(self)@.wf(),
        ensures
            Self::stepped(old(self), final(self), model::empty_elem(old(self)@, name@), r),
    {
        self.start_tag(name)?;
        self.write("/>")
    }

    /// Writes `<ns:name>text</name>`, the text escaped, as a child of the
    /// innermost open element.
    #[verifier::rlimit(40)]
    pub fn elem_text(&mut self, name: &str, text: &str) -> (r: Result<(), Error>)
        requires
            old(self)@.wf(),
        ensures
            Self::stepped(old(self), final(self), model::elem_text(old(self)@, name@, text@), r),
    {
        self.start_tag(name)?;
        self.write(">")?;
        self.escape(text, false)?;
        self.end_tag(None, name)
    }

    /// Ends the innermost open element. One without children was closed by
    /// `/>` and gets no closing tag; any other gets `</ns:name>`, with the
    /// namespace that was active when it was begun. Fails with
    /// [`Error::CloseElement`] when no element is open.
    #[verifier::rlimit(40)]
    pub fn end_elem(&mut self) -> (r: Result<(), Error>)
        requires
            old(self)@.wf(),
        ensures
            old(self)@.stack.len() > 0 ==> model::open_prefix(old(self)@, final(self)@)
                && final(self)@.stack.len() + 1 >= old(self)@.stack.len(),
            old(self)@.stack.len() == 0 ==> r == Err::<(), Error>(Error::CloseElement)
                && *final(self) == *old(self),
            old(self)@.stack.len() > 0 ==> Self::stepped(
                old(self),
                final(self),
                model::end_elem(old(self)@),
                r,
            ),
    {
        if self.stack.len() == 0 {
            return Err(Error::CloseElement);
        }
        proof {
            lemma_open_prefix_refl(old(self)@);
        }
        self.close_elem(false)?;
        let ghost s1 = self@;
        let ghost n = s1.stack.len() - 1;
        let ns = match self.ns_stack.pop() {
            Some(ns) => ns,
            None => {
                return Err(Error::CloseNamespace);
            },
        };
        let (name, children) = self.stack.pop().unwrap();
        assert(self@.stack =~= s1.stack.take(n));
        assert(self@.ns_stack =~= s1.ns_stack.take(n));
        if !children {
            return Ok(());
        }
        if self.newline {
            self.indent()?;
        }
        self.newline = true;
        self.end_tag(ns, name)
    }

    /// Begins an element that is complete at once: writes `<ns:name/>`.
    pub fn empty_elem(&mut self, name: &'a str) -> (r: Result<(), Error>)
        requires
            old(self)@.wf(),
        ensures
            Self::stepped(old(self), final(self), model::empty_elem(old(self)@, name@), r),
    {
        self.start_tag(name)?;
        self.write("/>")
    }

    /// Adds the attribute ` name="value"` to the open start tag, verbatim.
    /// Fails with [`Error::WriteWithoutElement`] when no start tag is open.
    #[verifier::rlimit(40)]
    pub fn attr(&mut self, name: &str, value: &str) -> (r: Result<(), Error>)
        requires
            old(self)@.wf(),
        ensures
            !old(self)@.opened ==> r == Err::<(), Error>(Error::WriteWithoutElement)
                && *final(self) == *old(self),
            old(self)@.opened ==> Self::stepped(
                old(self),
                final(self),
                (old(self)@, model::attr(name@, value@)),
                r,
            ),
    {
        if !self.opened {
            return Err(Error::WriteWithoutElement);
        }
        self.write(" ")?;
        self.write(name)?;
        self.write("=\"")?;
        self.write(value)?;
        self.write("\"")
    }

    /// Adds an attribute to the open start tag with its name and value
    /// escaped. Fails with [`Error::WriteWithoutElement`] when no start tag
    /// is open.
    #[verifier::rlimit(40)]
    pub fn attr_esc(&mut self, name: &str, value: &str) -> (r: Result<(), Error>)
        requires
            old(self)@.wf(),
        ensures
            !old(self)@.opened ==> r == Err::<(), Error>(Error::WriteWithoutElement)
                && *final(self) == *old(self),
            old(self)@.opened ==> Self::stepped(
                old(self),
                final(self),
                (old(self)@, model::attr_esc(name@, value@)),
                r,
            ),
    {
        if !self.opened {
            return Err(Error::WriteWithoutElement);
        }
        self.write(" ")?;
        self.escape(name, true)?;
        self.write("=\"")?;
        self.escape(value, false)?;
        self.write("\"")
    }

    /// Writes text content, escaped, inline after what precedes it.
    pub fn text(&mut self, text: &str) -> (r: Result<(), Error>)
        requires
            old(self)@.wf(),
        ensures
            Self::stepped(old(self), final(self), model::text(old(self)@, text@), r),
    {
        self.enter_content()?;
        self.newline = false;
        self.escape(text, false)
    }

    /// Writes a CDATA section holding `cdata` unescaped.
    #[verifier::rlimit(40)]
    pub fn cdata(&mut self, cdata: &str) -> (r: Result<(), Error>)
        requires
            old(self)@.wf(),
        ensures
            Self::stepped(old(self), final(self), model::cdata(old(self)@, cdata@), r),
    {
        self.enter_content()?;
        self.indent()?;
        self.write("<![CDATA[")?;
        self.write(cdata)?;
        self.write("]]>")
    }

    /// Writes a comment `<!-- comment -->`, escaped.
    #[verifier::rlimit(40)]
    pub fn comment(&mut self, comment: &str) -> (r: Result<(), Error>)
        requires
            old(self)@.wf(),
        ensures
            Self::stepped(old(self), final(self), model::comment(old(self)@, comment@), r),
    {
        self.enter_content()?;
        self.indent()?;
        self.write("<!-- ")?;
        self.escape(comment, false)?;
        self.write(" -->")
    }

    /// Ends all open elements, innermost first.
    #[verifier::rlimit(60)]
    pub fn close(&mut self) -> (r: Result<(), Error>)
        requires
            old(self)@.wf(),
        ensures
            model::open_prefix(old(self)@, final(self)@),
            Self::stepped(old(self), final(self), model::close(old(self)@), r),
    {
        let ghost mut done: Seq<char> = Seq::empty();
        proof {
            assert(done + model::close(old(self)@).1 =~= model::close(old(self)@).1);
            assert(self.sink().written() =~= old(self).sink().written() + encode_utf8(done));
        }
        proof {
            lemma_open_prefix_refl(old(self)@);
        }
        let n = self.stack.len();
        for i in 0..n
            invariant
                n == old(self)@.stack.len(),
                old(self)@.wf(),
                self@.wf(),
                self@.stack.len() == n - i,
                model::open_prefix(old(self)@, self@),
                Self::stepped(old(self), self, (self@, done), Ok(())),
                model::close(old(self)@) == (model::close(self@).0, done + model::close(self@).1),
        {
            let ghost s = self@;
            let ghost step = model::end_elem(s);
            proof {
                assert(done + model::close(s).1 =~= (done + step.1) + model::close(step.0).1);
            }
            let ghost w = self.sink().written();
            let r = self.end_elem();
            proof {
                lemma_open_prefix_trans(old(self)@, s, self@);
            }
            if r.is_err() {
                proof {
                    let total = model::close(old(self)@).1;
                    let rest = model::close(step.0).1;
                    assert(total == (done + step.1) + rest);
                    assert(old(self).sink().written() + encode_utf8(total) == (w + encode_utf8(
                        step.1,
                    )) + encode_utf8(rest));
                }
                return r;
            }
            proof {
                done = done + step.1;
            }
        }
        Ok(())
    }

    /// Flushes the sink.
    pub fn flush(&mut self) -> (r: Result<(), Error>)
        requires
            old(self)@.wf(),
        ensures
            final(self)@ == old(self)@,
            final(self).sink().written() == old(self).sink().written(),
            final(self).sink().room() >= old(self).sink().room(),
    {
        self.buffer.flush()
    }

    /// Gives back the sink, with what has been written to it. Elements still
    /// open stay unclosed.
    pub fn into_inner(self) -> (r: W)
        ensures
            r == self.sink(),
    {
        self.buffer
    }
}

/// Relies on `String::from_utf8`: it succeeds exactly on valid UTF-8, and
/// then holds the characters that the bytes encode.
#[verifier::external_body]
fn string_from_utf8(bytes: Vec<u8>) -> (r: Option<String>)
    ensures
        r is Some <==> valid_utf8(bytes@),
        r matches Some(s) ==> encode_utf8(s@) == bytes@,
{
    String::from_utf8(bytes).ok()
}

/// Relies on `BytesMut::to_vec`: a vector of the bytes held.
#[verifier::external_body]
fn bytes_mut_to_vec(b: &bytes::BytesMut) -> (r: Vec<u8>)
    ensures
        r@ == bytes_mut_contents(*b),
{
    b.to_vec()
}

impl<'a> vstd::std_specs::convert::TryFromSpecImpl<XmlWriter<'a, Vec<u8>>> for String {
    open spec fn obeys_try_from_spec() -> bool {
        false
    }

    /// Not relied on (`obeys_try_from_spec` is false): the conversion is
    /// specified by the `ensures` of `try_from` itself.
    closed spec fn try_from_spec(writer: XmlWriter<'a, Vec<u8>>) -> Result<String, Error> {
        Err(Error::ParsingUtf8)
    }
}

/// The text written into a byte vector, if it is valid UTF-8.
impl<'a> TryFrom<XmlWriter<'a, Vec<u8>>> for String {
    type Error = Error;

    fn try_from(writer: XmlWriter<'a, Vec<u8>>) -> (r: Result<String, Error>)
        ensures
            r is Ok <==> valid_utf8(writer.sink()@),
            r matches Ok(s) ==> encode_utf8(s@) == writer.sink()@,
            r is Err ==> r == Err::<String, Error>(Error::ParsingUtf8),
    {
        match string_from_utf8(writer.into_inner()) {
            Some(s) => Ok(s),
            None => Err(Error::ParsingUtf8),
        }
    }
}

impl<'a> vstd::std_specs::convert::TryFromSpecImpl<XmlWriter<'a, bytes::BytesMut>> for String {
    open spec fn obeys_try_from_spec() -> bool {
        false
    }

    /// Not relied on (`obeys_try_from_spec` is false): the conversion is
    /// specified by the `ensures` of `try_from` itself.
    closed spec fn try_from_spec(writer: XmlWriter<'a, bytes::BytesMut>) -> Result<String, Error> {
        Err(Error::ParsingUtf8)
    }
}

/// The text written into a `bytes::BytesMut`, if it is valid UTF-8.
impl<'a> TryFrom<XmlWriter<'a, bytes::BytesMut>> for String {
    type Error = Error;

    fn try_from(writer: XmlWriter<'a, bytes::BytesMut>) -> (r: Result<String, Error>)
        ensures
            r is Ok <==> valid_utf8(writer.sink().written()),
            r matches Ok(s) ==> encode_utf8(s@) == writer.sink().written(),
            r is Err ==> r == Err::<String, Error>(Error::ParsingUtf8),
    {
        let b = writer.into_inner();
        match string_from_utf8(bytes_mut_to_vec(&b)) {
            Some(s) => Ok(s),
            None => Err(Error::ParsingUtf8),
        }
    }
}

} // verus!
