//! Laws of the writer, proved over the state machine of [`crate::model`].

use vstd::prelude::*;

use crate::model::{
    begin_elem, cdata, close, closing_token, comment, elem_text, empty_elem, end_elem, escape,
    escape_char, initial, settled, text, WriterView,
};

verus! {

/// Escaping works character by character: the escaped form of a
/// concatenation is the concatenation of the escaped forms.
pub proof fn lemma_escape_concat(a: Seq<char>, b: Seq<char>, ident: bool)
    ensures
        escape(a + b, ident) == escape(a, ident) + escape(b, ident),
    decreases b.len(),
{
    if b.len() == 0 {
        assert(a + b =~= a);
        assert(escape(a, ident) + escape(b, ident) =~= escape(a, ident));
    } else {
        assert((a + b).drop_last() =~= a + b.drop_last());
        assert((a + b).last() == b.last());
        lemma_escape_concat(a, b.drop_last(), ident);
        assert(escape(a + b, ident) =~= escape(a, ident) + escape(b, ident));
    }
}

/// Escaping one character gives its entity: `&quot;`, `&apos;`, `&amp;`,
/// `&lt;` and `&gt;` for the five reserved characters, a doubled backslash
/// for a backslash in an identifier, and the character itself otherwise.
pub proof fn lemma_escape_single(c: char, ident: bool)
    ensures
        escape(seq![c], ident) == escape_char(c, ident),
        c == '"' ==> escape(seq![c], ident) == "&quot;"@,
        c == '\'' ==> escape(seq![c], ident) == "&apos;"@,
        c == '&' ==> escape(seq![c], ident) == "&amp;"@,
        c == '<' ==> escape(seq![c], ident) == "&lt;"@,
        c == '>' ==> escape(seq![c], ident) == "&gt;"@,
        (c != '"' && c != '\'' && c != '&' && c != '<' && c != '>' && (c != '\\' || !ident))
            ==> escape(seq![c], ident) == seq![c],
{
    let e = Seq::<char>::empty();
    assert(seq![c].drop_last() =~= e);
    assert(seq![c].last() == c);
    assert(escape(e, ident) == e);
    assert(e + escape_char(c, ident) =~= escape_char(c, ident));
}

/// A text without reserved characters (and, in an identifier, without
/// backslashes) is its own escaped form.
pub proof fn lemma_escape_plain(t: Seq<char>, ident: bool)
    requires
        forall|i: int|
            0 <= i < t.len() ==> {
                let c = #[trigger] t[i];
                c != '"' && c != '\'' && c != '&' && c != '<' && c != '>' && (c != '\\' || !ident)
            },
    ensures
        escape(t, ident) == t,
    decreases t.len(),
{
    if t.len() > 0 {
        lemma_escape_plain(t.drop_last(), ident);
        assert(t[t.len() - 1] == t.last());
        assert(escape(t, ident) =~= t);
    }
}

/// An element begun and then ended at once is written exactly as
/// `empty_elem` writes it: self-closed as `<ns:name/>`, with no separate
/// closing tag, in compact and in pretty mode.
pub proof fn lemma_childless(s: WriterView, name: Seq<char>)
    requires
        s.wf(),
    ensures
        ({
            let (s1, o1) = begin_elem(s, name);
            let (s2, o2) = end_elem(s1);
            (s2, o1 + o2) == empty_elem(s, name)
        }),
{
    let (s1, o1) = begin_elem(s, name);
    let (s2, o2) = end_elem(s1);
    let (e, oe) = empty_elem(s, name);
    assert(s2.stack =~= e.stack);
    assert(s2.ns_stack =~= e.ns_stack);
    assert(o1 + o2 =~= oe);
}

/// The closing tag carries the namespace that was active when the element
/// was begun: an element begun in namespace `ns1` is closed as
/// `</ns1:name>` even after the active namespace has changed to `ns2`.
pub proof fn lemma_namespace_at_open(
    s: WriterView,
    name: Seq<char>,
    ns1: Seq<char>,
    ns2: Seq<char>,
    content: Seq<char>,
)
    requires
        s.wf(),
        s.namespace == Some(ns1),
    ensures
        ({
            let s1 = begin_elem(s, name).0;
            let s2 = WriterView { namespace: Some(ns2), ..s1 };
            let s3 = text(s2, content).0;
            end_elem(s3).1 == "</"@ + ns1 + ":"@ + name + ">"@
        }),
{
    let s1 = begin_elem(s, name).0;
    let s2 = WriterView { namespace: Some(ns2), ..s1 };
    let s3 = text(s2, content).0;
    assert(s3.stack.len() == s1.stack.len());
    assert(s3.stack.last() == (name, true));
    assert(s3.ns_stack.last() == Some(ns1));
    assert(end_elem(s3).1 =~= "</"@ + ns1 + ":"@ + name + ">"@);
}

/// `n` successive `end_elem` steps.
pub open spec fn end_elem_times(s: WriterView, n: nat) -> (WriterView, Seq<char>)
    decreases n,
{
    if n == 0 {
        (s, Seq::empty())
    } else {
        let (s1, o1) = end_elem(s);
        let (s2, o2) = end_elem_times(s1, (n - 1) as nat);
        (s2, o1 + o2)
    }
}

/// Ending an element keeps the state well formed and removes exactly one
/// open element.
pub proof fn lemma_end_elem_pops(s: WriterView)
    requires
        s.wf(),
        s.stack.len() > 0,
    ensures
        end_elem(s).0.wf(),
        end_elem(s).0.stack.len() == s.stack.len() - 1,
        !end_elem(s).0.opened,
{
}

/// `close` takes one `end_elem` step per open element, no more and no less,
/// and leaves no element open.
pub proof fn lemma_close_drains(s: WriterView)
    requires
        s.wf(),
    ensures
        close(s) == end_elem_times(s, s.stack.len()),
        close(s).0.wf(),
        close(s).0.stack.len() == 0,
        close(s).0.ns_stack.len() == 0,
        !close(s).0.opened,
    decreases s.stack.len(),
{
    if s.stack.len() > 0 {
        lemma_end_elem_pops(s);
        lemma_close_drains(end_elem(s).0);
    }
}

/// Closing a writer with no open element does nothing, so closing twice
/// is closing once.
pub proof fn lemma_close_idempotent(s: WriterView)
    requires
        s.wf(),
    ensures
        s.stack.len() == 0 ==> close(s) == (s, Seq::<char>::empty()),
        close(close(s).0) == (close(s).0, Seq::<char>::empty()),
{
    lemma_close_drains(s);
}

/// Only `begin_elem` leaves a start tag open for attributes: a fresh writer
/// has none, and every other step that writes an element or content
/// terminates any that was open. So `attr`, `attr_esc` and `ns_decl` fail
/// before the first `begin_elem` and right after `elem`, and `end_elem`
/// fails on a fresh writer.
pub proof fn lemma_only_begin_elem_opens(
    pretty: bool,
    s: WriterView,
    name: Seq<char>,
    t: Seq<char>,
)
    requires
        s.wf(),
    ensures
        !initial(pretty).opened,
        initial(pretty).stack.len() == 0,
        initial(pretty).wf(),
        begin_elem(s, name).0.opened,
        !empty_elem(s, name).0.opened,
        !elem_text(s, name, t).0.opened,
        !text(s, t).0.opened,
        !cdata(s, t).0.opened,
        !comment(s, t).0.opened,
        s.stack.len() > 0 ==> !end_elem(s).0.opened,
        !close(s).0.opened,
{
    lemma_close_drains(s);
}

/// A fresh writer is settled, and every operation keeps a settled state
/// settled.
pub proof fn lemma_settled_kept(pretty: bool, s: WriterView, name: Seq<char>, t: Seq<char>)
    requires
        settled(s),
    ensures
        settled(initial(pretty)),
        settled(begin_elem(s, name).0),
        settled(empty_elem(s, name).0),
        settled(elem_text(s, name, t).0),
        settled(text(s, t).0),
        settled(cdata(s, t).0),
        settled(comment(s, t).0),
        s.stack.len() > 0 ==> settled(end_elem(s).0),
        settled(close(s).0),
{
    lemma_close_drains(s);
    let b = begin_elem(s, name).0;
    assert forall|i: int| 0 <= i < b.stack.len() - 1 implies (#[trigger] b.stack[i]).1 by {
        if i == s.stack.len() - 1 {
        } else {
            assert(s.stack[i].1);
        }
    }
    if s.stack.len() > 0 {
        let e = end_elem(s).0;
        assert forall|i: int| 0 <= i < e.stack.len() - 1 implies (#[trigger] e.stack[i]).1 by {
            assert(s.stack[i].1);
        }
        assert(e.stack.len() > 0 ==> e.stack.last() == s.stack[s.stack.len() - 2]);
    }
}

/// On a settled state, ending the innermost element writes exactly one
/// closing token: `/>` if it is childless, else its closing tag.
pub proof fn lemma_end_elem_one_token(s: WriterView)
    requires
        settled(s),
        s.stack.len() > 0,
    ensures
        end_elem(s).1 == closing_token(s),
        settled(end_elem(s).0),
        end_elem(s).0.stack == s.stack.drop_last(),
        end_elem(s).0.ns_stack == s.ns_stack.drop_last(),
{
    lemma_settled_kept(false, s, Seq::empty(), Seq::empty());
    let e = end_elem(s);
    assert(e.0.stack =~= s.stack.drop_last());
    assert(e.0.ns_stack =~= s.ns_stack.drop_last());
    assert(e.1 =~= closing_token(s));
}

/// The closing tokens of all open elements, innermost first.
pub open spec fn closing_tokens(s: WriterView) -> Seq<char>
    decreases s.stack.len(),
{
    if s.stack.len() == 0 {
        Seq::empty()
    } else {
        closing_token(s) + closing_tokens(end_elem(s).0)
    }
}

/// On a settled state, `close` writes one closing token per open element,
/// innermost first, and nothing else.
pub proof fn lemma_close_one_token_each(s: WriterView)
    requires
        settled(s),
    ensures
        close(s).1 == closing_tokens(s),
    decreases s.stack.len(),
{
    if s.stack.len() > 0 {
        lemma_end_elem_one_token(s);
        lemma_close_one_token_each(end_elem(s).0);
    }
}

/// The escaped form of a text is the escaped forms of its characters, one
/// after another.
pub proof fn lemma_escape_each_char(t: Seq<char>, ident: bool)
    ensures
        escape(t, ident) == t.map_values(|c: char| escape_char(c, ident)).flatten(),
{
    let m = t.map_values(|c: char| escape_char(c, ident));
    lemma_escape_each_char_alt(t, ident);
    m.lemma_flatten_and_flatten_alt_are_equivalent();
}

proof fn lemma_escape_each_char_alt(t: Seq<char>, ident: bool)
    ensures
        escape(t, ident) == t.map_values(|c: char| escape_char(c, ident)).flatten_alt(),
    decreases t.len(),
{
    let m = t.map_values(|c: char| escape_char(c, ident));
    if t.len() > 0 {
        lemma_escape_each_char_alt(t.drop_last(), ident);
        assert(m.drop_last() =~= t.drop_last().map_values(|c: char| escape_char(c, ident)));
    } else {
        assert(m =~= Seq::<Seq<char>>::empty());
    }
}

} // verus!
