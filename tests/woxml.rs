use std::str;

use woxml::{Error, XmlWriter};

fn create_xml(
    writer: &mut XmlWriter<'_, Vec<u8>>,
    nsmap: &Vec<(Option<&'static str>, &'static str)>,
) -> Result<(), Error> {
    writer.begin_elem("OTDS")?;
    writer.ns_decl(nsmap)?;
    writer.comment("nice to see you")?;
    writer.set_namespace("st");
    writer.empty_elem("success")?;
    writer.begin_elem("node")?;
    writer.attr_esc("name", "\"123\"")?;
    writer.attr("id", "abc")?;
    writer.attr("'unescaped'", "\"123\"")?;
    writer.text("'text'")?;
    writer.end_elem()?;
    writer.unset_namespace();
    writer.begin_elem("stuff")?;
    writer.cdata("blablab")?;
    writer.end_elem()?;
    writer.begin_elem("no_children")?;
    writer.end_elem()?;
    writer.end_elem()?;
    writer.close()?;
    writer.flush()
}

#[test]
fn woxml_compact() -> Result<(), Error> {
    let nsmap = vec![
        (None, "http://localhost/"),
        (Some("st"), "http://127.0.0.1/"),
    ];
    let mut writer = XmlWriter::compact_mode(Vec::new());

    create_xml(&mut writer, &nsmap)?;

    let actual = writer.into_inner();
    assert_eq!(
        str::from_utf8(&actual).expect("should not happen"),
        "<OTDS xmlns=\"http://localhost/\" xmlns:st=\"http://127.0.0.1/\"><!-- nice to see you --><st:success/><st:node name=\"&quot;123&quot;\" id=\"abc\" \'unescaped\'=\"\"123\"\">&apos;text&apos;</st:node><stuff><![CDATA[blablab]]></stuff><no_children/></OTDS>"
    );
    Ok(())
}

#[test]
fn woxml_pretty() -> Result<(), Error> {
    let nsmap = vec![
        (None, "http://localhost/"),
        (Some("st"), "http://127.0.0.1/"),
    ];
    let mut writer = XmlWriter::pretty_mode(Vec::new());

    create_xml(&mut writer, &nsmap)?;

    let actual = writer.into_inner();
    assert_eq!(
        str::from_utf8(&actual).expect("should not happen"),
        "<OTDS xmlns=\"http://localhost/\" xmlns:st=\"http://127.0.0.1/\">\n  <!-- nice to see you -->\n  <st:success/>\n  <st:node name=\"&quot;123&quot;\" id=\"abc\" \'unescaped\'=\"\"123\"\">&apos;text&apos;</st:node>\n  <stuff>\n    <![CDATA[blablab]]>\n  </stuff>\n  <no_children/>\n</OTDS>"
    );
    Ok(())
}

#[test]
fn woxml_comment() -> Result<(), Error> {
    let mut xml = XmlWriter::pretty_mode(Vec::new());
    xml.comment("comment")?;

    let actual = xml.into_inner();
    assert_eq!(str::from_utf8(&actual).expect("should not happen"), "<!-- comment -->");

    let mut xml = XmlWriter::compact_mode(Vec::new());
    xml.comment("comment")?;

    let actual = xml.into_inner();
    assert_eq!(str::from_utf8(&actual).expect("should not happen"), "<!-- comment -->");
    Ok(())
}

#[test]
fn buffer() -> Result<(), Error> {
    let nsmap = vec![
        (None, "http://localhost/"),
        (Some("st"), "http://127.0.0.1/"),
    ];
    let mut writer = XmlWriter::compact_mode(bytes::BytesMut::new());

    writer.begin_elem("OTDS")?;
    writer.ns_decl(&nsmap)?;
    writer.comment("nice to see you")?;
    writer.set_namespace("st");
    writer.empty_elem("success")?;
    writer.begin_elem("node")?;
    writer.attr_esc("name", "\"123\"")?;
    writer.attr("id", "abc")?;
    writer.attr("'unescaped'", "\"123\"")?;
    writer.text("'text'")?;
    writer.end_elem()?;
    writer.unset_namespace();
    writer.begin_elem("stuff")?;
    writer.cdata("blablab")?;
    writer.end_elem()?;
    writer.end_elem()?;
    writer.close()?;
    writer.flush()?;

    let actual = writer.into_inner();
    assert_eq!(
        str::from_utf8(&actual).expect("should not happen"),
        "<OTDS xmlns=\"http://localhost/\" xmlns:st=\"http://127.0.0.1/\"><!-- nice to see you --><st:success/><st:node name=\"&quot;123&quot;\" id=\"abc\" \'unescaped\'=\"\"123\"\">&apos;text&apos;</st:node><stuff><![CDATA[blablab]]></stuff></OTDS>"
    );
    Ok(())
}

fn create_xml_unchecked(
    writer: &mut XmlWriter<'_, Vec<u8>>,
    nsmap: &Vec<(Option<&'static str>, &'static str)>,
) {
    let _ = writer.begin_elem("OTDS");
    let _ = writer.ns_decl(nsmap);
    let _ = writer.comment("nice to see you");
    writer.set_namespace("st");
    let _ = writer.empty_elem("success");
    let _ = writer.begin_elem("node");
    let _ = writer.attr_esc("name", "\"123\"");
    let _ = writer.attr("id", "abc");
    let _ = writer.attr("'unescaped'", "\"123\"");
    let _ = writer.text("'text'");
    let _ = writer.end_elem();
    writer.unset_namespace();
    let _ = writer.begin_elem("stuff");
    let _ = writer.cdata("blablab");
    let _ = writer.end_elem();
    let _ = writer.end_elem();
    let _ = writer.flush();
}

#[test]
fn test_compact() {
    let nsmap = vec![
        (None, "http://localhost/"),
        (Some("st"), "http://127.0.0.1/"),
    ];
    let mut writer = XmlWriter::compact_mode(Vec::new());

    create_xml_unchecked(&mut writer, &nsmap);

    let actual = writer.into_inner();
    assert_eq!(
        str::from_utf8(&actual).unwrap(),
        "<OTDS xmlns=\"http://localhost/\" xmlns:st=\"http://127.0.0.1/\"><!-- nice to see you --><st:success/><st:node name=\"&quot;123&quot;\" id=\"abc\" \'unescaped\'=\"\"123\"\">&apos;text&apos;</st:node><stuff><![CDATA[blablab]]></stuff></OTDS>"
    );
}

#[test]
fn test_pretty() {
    let nsmap = vec![
        (None, "http://localhost/"),
        (Some("st"), "http://127.0.0.1/"),
    ];
    let mut writer = XmlWriter::pretty_mode(Vec::new());

    create_xml_unchecked(&mut writer, &nsmap);

    let actual = writer.into_inner();
    assert_eq!(
        str::from_utf8(&actual).unwrap(),
        "<OTDS xmlns=\"http://localhost/\" xmlns:st=\"http://127.0.0.1/\">\n  <!-- nice to see you -->\n  <st:success/>\n  <st:node name=\"&quot;123&quot;\" id=\"abc\" \'unescaped\'=\"\"123\"\">&apos;text&apos;</st:node>\n  <stuff>\n    <![CDATA[blablab]]>\n  </stuff>\n</OTDS>"
    );
}

#[test]
fn test_comment() {
    let mut xml = XmlWriter::pretty_mode(Vec::new());
    let _ = xml.comment("comment");

    let actual = xml.into_inner();
    assert_eq!(str::from_utf8(&actual).unwrap(), "<!-- comment -->");

    let mut xml = XmlWriter::compact_mode(Vec::new());
    let _ = xml.comment("comment");

    let actual = xml.into_inner();
    assert_eq!(str::from_utf8(&actual).unwrap(), "<!-- comment -->");
}
