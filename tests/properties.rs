use std::str;

use woxml::{Error, Write, XmlWriter};

fn text_of(writer: XmlWriter<'_, Vec<u8>>) -> String {
    String::from_utf8(writer.into_inner()).unwrap()
}

fn ns_map() -> Vec<(Option<&'static str>, &'static str)> {
    vec![
        (None, "http://localhost/"),
        (Some("st"), "http://127.0.0.1/"),
    ]
}

/// A sink that accepts nothing.
struct Full;

impl Write for Full {
    fn written(&self) -> vstd::seq::Seq<u8> {
        unreachable!()
    }

    fn room(&self) -> vstd::prelude::nat {
        unreachable!()
    }

    fn flush(&mut self) -> Result<(), Error> {
        Ok(())
    }

    fn write(&mut self, _buf: &[u8]) -> Result<usize, Error> {
        Ok(0)
    }
}

/// A sink that fails on every write.
struct Broken;

impl Write for Broken {
    fn written(&self) -> vstd::seq::Seq<u8> {
        unreachable!()
    }

    fn room(&self) -> vstd::prelude::nat {
        unreachable!()
    }

    fn flush(&mut self) -> Result<(), Error> {
        Err(Error::ParsingUtf8)
    }

    fn write(&mut self, _buf: &[u8]) -> Result<usize, Error> {
        Err(Error::ParsingUtf8)
    }
}

/// A sink that takes one byte at a time.
struct Trickle(Vec<u8>);

impl Write for Trickle {
    fn written(&self) -> vstd::seq::Seq<u8> {
        unreachable!()
    }

    fn room(&self) -> vstd::prelude::nat {
        unreachable!()
    }

    fn flush(&mut self) -> Result<(), Error> {
        Ok(())
    }

    fn write(&mut self, buf: &[u8]) -> Result<usize, Error> {
        if buf.is_empty() {
            return Ok(0);
        }
        self.0.push(buf[0]);
        Ok(1)
    }
}

/// A sink that takes at most `limit` bytes in all.
struct Limited {
    bytes: Vec<u8>,
    limit: usize,
}

impl Write for Limited {
    fn written(&self) -> vstd::seq::Seq<u8> {
        unreachable!()
    }

    fn room(&self) -> vstd::prelude::nat {
        unreachable!()
    }

    fn flush(&mut self) -> Result<(), Error> {
        Ok(())
    }

    fn write(&mut self, buf: &[u8]) -> Result<usize, Error> {
        let n = buf.len().min(self.limit - self.bytes.len());
        self.bytes.extend_from_slice(&buf[..n]);
        Ok(n)
    }
}

#[test]
fn failed_write_leaves_a_prefix() {
    let mut w = XmlWriter::compact_mode(Limited { bytes: Vec::new(), limit: 7 });
    assert_eq!(w.elem_text("abc", "x<y"), Err(Error::WriteAllEof));
    assert_eq!(w.into_inner().bytes, b"<abc>x&".to_vec());
}

#[test]
fn end_to_end_compact() {
    let nsmap = ns_map();
    let mut w = XmlWriter::compact_mode(Vec::new());
    w.begin_elem("OTDS").unwrap();
    w.ns_decl(&nsmap).unwrap();
    w.comment("hi").unwrap();
    w.set_namespace("st");
    w.empty_elem("ok").unwrap();
    w.end_elem().unwrap();
    w.close().unwrap();
    assert_eq!(
        text_of(w),
        "<OTDS xmlns=\"http://localhost/\" xmlns:st=\"http://127.0.0.1/\"><!-- hi --><st:ok/></OTDS>"
    );
}

#[test]
fn end_to_end_pretty() {
    let nsmap = ns_map();
    let mut w = XmlWriter::pretty_mode(Vec::new());
    w.begin_elem("OTDS").unwrap();
    w.ns_decl(&nsmap).unwrap();
    w.comment("hi").unwrap();
    w.set_namespace("st");
    w.empty_elem("ok").unwrap();
    w.end_elem().unwrap();
    w.close().unwrap();
    assert_eq!(
        text_of(w),
        "<OTDS xmlns=\"http://localhost/\" xmlns:st=\"http://127.0.0.1/\">\n  <!-- hi -->\n  <st:ok/>\n</OTDS>"
    );
}

#[test]
fn close_drains_all_open_elements() {
    let mut w = XmlWriter::compact_mode(Vec::new());
    w.begin_elem("a").unwrap();
    w.begin_elem("b").unwrap();
    w.begin_elem("c").unwrap();
    w.text("x").unwrap();
    w.begin_elem("d").unwrap();
    w.close().unwrap();
    assert_eq!(w.end_elem(), Err(Error::CloseElement));
    assert_eq!(text_of(w), "<a><b><c>x<d/></c></b></a>");
}

#[test]
fn close_drains_in_pretty_mode() {
    let mut w = XmlWriter::pretty_mode(Vec::new());
    w.begin_elem("a").unwrap();
    w.begin_elem("b").unwrap();
    w.begin_elem("c").unwrap();
    w.close().unwrap();
    assert_eq!(text_of(w), "<a>\n  <b>\n    <c/>\n  </b>\n</a>");
}

#[test]
fn close_twice_is_close_once() {
    let mut w = XmlWriter::compact_mode(Vec::new());
    w.begin_elem("a").unwrap();
    w.comment("c").unwrap();
    w.close().unwrap();
    let once = w.into_inner();
    let mut w = XmlWriter::compact_mode(Vec::new());
    w.begin_elem("a").unwrap();
    w.comment("c").unwrap();
    w.close().unwrap();
    w.close().unwrap();
    assert_eq!(w.into_inner(), once);
    assert_eq!(once, b"<a><!-- c --></a>".to_vec());
}

#[test]
fn close_on_fresh_writer_does_nothing() {
    let mut w = XmlWriter::pretty_mode(Vec::new());
    assert_eq!(w.close(), Ok(()));
    assert!(w.into_inner().is_empty());
    let mut w = XmlWriter::compact_mode(Full);
    assert_eq!(w.close(), Ok(()));
}

#[test]
fn escapes_each_reserved_character() {
    for (c, e) in [("\"", "&quot;"), ("'", "&apos;"), ("&", "&amp;"), ("<", "&lt;"), (">", "&gt;")] {
        let mut w = XmlWriter::compact_mode(Vec::new());
        w.text(c).unwrap();
        assert_eq!(text_of(w), e);
        let mut w = XmlWriter::compact_mode(Vec::new());
        w.comment(c).unwrap();
        assert_eq!(text_of(w), format!("<!-- {} -->", e));
        let mut w = XmlWriter::compact_mode(Vec::new());
        w.begin_elem("x").unwrap();
        w.attr_esc(c, c).unwrap();
        w.end_elem().unwrap();
        assert_eq!(text_of(w), format!("<x {}=\"{}\"/>", e, e));
    }
}

#[test]
fn other_characters_pass_through() {
    let mut w = XmlWriter::compact_mode(Vec::new());
    w.text("plain é € 😀 \\ text").unwrap();
    assert_eq!(text_of(w), "plain é € 😀 \\ text");
}

#[test]
fn backslash_doubled_only_in_names() {
    let mut w = XmlWriter::compact_mode(Vec::new());
    w.begin_elem("x").unwrap();
    w.attr_esc("a\\b", "c\\d").unwrap();
    w.end_elem().unwrap();
    assert_eq!(text_of(w), "<x a\\\\b=\"c\\d\"/>");
}

#[test]
fn childless_element_self_closes() {
    let mut w = XmlWriter::compact_mode(Vec::new());
    w.begin_elem("x").unwrap();
    w.end_elem().unwrap();
    assert_eq!(text_of(w), "<x/>");
    let mut w = XmlWriter::pretty_mode(Vec::new());
    w.begin_elem("r").unwrap();
    w.begin_elem("x").unwrap();
    w.end_elem().unwrap();
    w.end_elem().unwrap();
    assert_eq!(text_of(w), "<r>\n  <x/>\n</r>");
}

#[test]
fn closing_tag_keeps_namespace_of_opening() {
    let mut w = XmlWriter::compact_mode(Vec::new());
    w.set_namespace("ns1");
    w.begin_elem("a").unwrap();
    w.set_namespace("ns2");
    w.text("t").unwrap();
    w.end_elem().unwrap();
    assert_eq!(text_of(w), "<ns1:a>t</ns1:a>");
}

#[test]
fn namespace_applies_only_to_later_elements() {
    let mut w = XmlWriter::compact_mode(Vec::new());
    assert_eq!(w.namespace(), None);
    w.begin_elem("a").unwrap();
    w.set_namespace("p");
    assert_eq!(w.namespace(), Some("p"));
    w.begin_elem("b").unwrap();
    w.text("t").unwrap();
    w.unset_namespace();
    assert_eq!(w.namespace(), None);
    w.close().unwrap();
    assert_eq!(text_of(w), "<a><p:b>t</p:b></a>");
}

#[test]
fn attr_without_element_fails() {
    let mut w = XmlWriter::compact_mode(Vec::new());
    assert_eq!(w.attr("a", "b"), Err(Error::WriteWithoutElement));
    assert_eq!(w.attr_esc("a", "b"), Err(Error::WriteWithoutElement));
    w.elem("e").unwrap();
    assert_eq!(w.attr("a", "b"), Err(Error::WriteWithoutElement));
    assert_eq!(text_of(w), "<e/>");
}

#[test]
fn ns_decl_without_element_fails() {
    let mut w = XmlWriter::compact_mode(Vec::new());
    assert_eq!(w.ns_decl(&ns_map()), Err(Error::OpenNamespaceWithoutElement));
    assert!(w.into_inner().is_empty());
}

#[test]
fn end_elem_without_element_fails() {
    let mut w = XmlWriter::pretty_mode(Vec::new());
    assert_eq!(w.end_elem(), Err(Error::CloseElement));
    assert!(w.into_inner().is_empty());
}

#[test]
fn elem_is_a_child() {
    let mut w = XmlWriter::compact_mode(Vec::new());
    w.begin_elem("a").unwrap();
    w.elem("br").unwrap();
    w.end_elem().unwrap();
    assert_eq!(text_of(w), "<a><br/></a>");
}

#[test]
fn elem_text_writes_escaped_content() {
    let mut w = XmlWriter::compact_mode(Vec::new());
    w.begin_elem("a").unwrap();
    w.set_namespace("n");
    w.elem_text("t", "1 < 2").unwrap();
    w.end_elem().unwrap();
    assert_eq!(text_of(w), "<a><n:t>1 &lt; 2</t></a>");
}

#[test]
fn cdata_is_not_escaped() {
    let mut w = XmlWriter::pretty_mode(Vec::new());
    w.begin_elem("a").unwrap();
    w.cdata("<&>").unwrap();
    w.end_elem().unwrap();
    assert_eq!(text_of(w), "<a>\n  <![CDATA[<&>]]>\n</a>");
}

#[test]
fn dtd_and_raw_write() {
    let mut w = XmlWriter::compact_mode(Vec::new());
    w.dtd("UTF-8").unwrap();
    w.write("<raw&>").unwrap();
    assert_eq!(text_of(w), "<?xml version=\"1.0\" encoding=\"UTF-8\" ?>\n<raw&>");
}

#[test]
fn mode_can_be_switched() {
    let mut w = XmlWriter::compact_mode(Vec::new());
    w.set_pretty_mode();
    w.begin_elem("a").unwrap();
    w.begin_elem("b").unwrap();
    w.end_elem().unwrap();
    w.set_compact_mode();
    w.begin_elem("c").unwrap();
    w.close().unwrap();
    assert_eq!(text_of(w), "<a>\n  <b/><c/></a>");
}

#[test]
fn full_sink_reports_eof() {
    let mut w = XmlWriter::compact_mode(Full);
    assert_eq!(w.begin_elem("a"), Err(Error::WriteAllEof));
    assert_eq!(w.comment("c"), Err(Error::WriteAllEof));
    assert_eq!(w.flush(), Ok(()));
}

#[test]
fn sink_errors_pass_through() {
    let mut w = XmlWriter::compact_mode(Broken);
    assert_eq!(w.text("t"), Err(Error::ParsingUtf8));
    assert_eq!(w.flush(), Err(Error::ParsingUtf8));
}

#[test]
fn write_all_retries_partial_writes() {
    let mut w = XmlWriter::compact_mode(Trickle(Vec::new()));
    w.elem_text("a", "é").unwrap();
    assert_eq!(str::from_utf8(&w.into_inner().0).unwrap(), "<a>é</a>");
}

#[test]
fn vec_sink_appends() {
    let mut v = vec![1u8];
    assert_eq!(Write::write(&mut v, &[2, 3]), Ok(2));
    assert_eq!(v.write_all(&[4]), Ok(()));
    assert_eq!(Write::flush(&mut v), Ok(()));
    assert_eq!(v, vec![1, 2, 3, 4]);
}

#[test]
fn bytes_mut_sink_appends() {
    let mut b = bytes::BytesMut::new();
    assert_eq!(Write::write(&mut b, b"ab"), Ok(2));
    assert_eq!(b.write_all(b"cd"), Ok(()));
    assert_eq!(&b[..], b"abcd");
}

#[test]
fn converts_output_to_string() {
    let mut w = XmlWriter::compact_mode(Vec::new());
    w.elem_text("a", "ü").unwrap();
    assert_eq!(String::try_from(w), Ok("<a>ü</a>".to_string()));
    let mut w = XmlWriter::compact_mode(bytes::BytesMut::new());
    w.elem("b").unwrap();
    assert_eq!(String::try_from(w), Ok("<b/>".to_string()));
}

#[test]
fn invalid_utf8_is_reported() {
    let w = XmlWriter::compact_mode(vec![0xFFu8]);
    assert_eq!(String::try_from(w), Err(Error::ParsingUtf8));
}

#[test]
fn error_messages() {
    assert_eq!(Error::CloseElement.message(), "attempted to close 'elem', when none was open");
    assert_eq!(Error::WriteAllEof.message(), "failed to write buffer");
    assert_eq!(Error::ParsingUtf8.message(), "failed parsing buffer as UTF8");
}

#[test]
fn close_stops_at_first_sink_error() {
    let mut w = XmlWriter::compact_mode(Limited { bytes: Vec::new(), limit: 12 });
    w.begin_elem("a").unwrap();
    w.begin_elem("b").unwrap();
    w.text("t").unwrap();
    assert_eq!(w.close(), Err(Error::WriteAllEof));
    assert_eq!(w.into_inner().bytes, b"<a><b>t</b><".to_vec());
}
