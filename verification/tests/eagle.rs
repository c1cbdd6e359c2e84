use hardware_ingest::eagle::load_eagle_brd;
use hardware_ingest::error::{DecodeError, Format, IntegrityKind, ParseFailure};
use hardware_ingest::pcb::{NetNode, Position};
use hardware_ingest::xml::{resolve, tokenize_xml};

fn b(x: f64) -> u64 {
    x.to_bits()
}

fn parse_error(reason: ParseFailure) -> DecodeError {
    DecodeError::ParseError { format: Format::Eagle, reason }
}

fn integrity(kind: IntegrityKind, id: &str) -> DecodeError {
    DecodeError::IntegrityError { kind, id: id.to_string() }
}

fn board(elements: &str, signals: &str) -> String {
    format!(
        r#"<?xml version="1.0" encoding="utf-8"?>
<!DOCTYPE eagle SYSTEM "eagle.dtd">
<eagle version="9.6.2">
<drawing>
<settings><setting alwaysvectorfont="no"/></settings>
<layers>
<layer number="1" name="Top" color="4" fill="1" visible="yes" active="yes"/>
<layer number="16" name="Bottom" color="1" fill="1" visible="yes" active="yes"/>
</layers>
<board>
<!-- the parts -->
<elements>
{elements}
</elements>
<signals>
{signals}
</signals>
</board>
</drawing>
</eagle>
"#
    )
}

const R1: &str = r#"<element name="R1" library="rcl" package="R0603" value="10k" x="10.16" y="20.32" rot="R90"/>"#;

#[test]
fn minimal_eagle_board() {
    let file = board(
        R1,
        r#"<signal name="GND">
<contactref element="R1" pad="1"/>
<wire x1="10.16" y1="20.32" x2="15.24" y2="20.32" width="0.4064" layer="16"/>
<via x="1" y="2" extent="1-16" drill="0.6"/>
</signal>"#,
    );
    let board = load_eagle_brd("demo.brd", file.as_bytes()).unwrap();
    assert_eq!(board.file_path, "demo.brd");
    assert_eq!(board.layers, vec!["Top", "Bottom"]);
    assert_eq!(board.components.len(), 1);
    let c = &board.components[0];
    assert_eq!((c.id.as_str(), c.name.as_str()), ("R1", "R1"));
    assert_eq!(c.component_type, "rcl");
    assert_eq!(c.footprint, "R0603");
    assert_eq!(c.value.as_deref(), Some("10k"));
    assert_eq!(c.position, Position { x: b(10.16), y: b(20.32) });
    assert_eq!(c.rotation, b(90.0));
    assert_eq!(board.nets.len(), 1);
    assert_eq!(board.nets[0].id, "GND");
    assert_eq!(board.nets[0].name, "GND");
    assert_eq!(board.nets[0].nodes, vec![NetNode { component_id: "R1".to_string(), pin: "1".to_string() }]);
    assert_eq!(board.traces.len(), 1);
    let t = &board.traces[0];
    assert_eq!(t.net_id, "GND");
    assert_eq!(t.layer, "Bottom");
    assert_eq!(t.width, b(0.4064));
    assert_eq!(t.path, vec![Position { x: b(10.16), y: b(20.32) }, Position { x: b(15.24), y: b(20.32) }]);
}

#[test]
fn eagle_rotations_and_absent_attributes() {
    let file = board(
        r#"<element name="A" package="P" x="0" y="0"/>
<element name="B&amp;C" library='l"ib' package="P" x="1" y="-1" rot="MR180"/>
<element name="D" package="P" x="1" y="1" rot="SR22.5"/>"#,
        "",
    );
    let board = load_eagle_brd("demo.brd", file.as_bytes()).unwrap();
    assert_eq!(board.components[0].rotation, b(0.0));
    assert_eq!(board.components[0].component_type, "");
    assert_eq!(board.components[0].value, None);
    assert_eq!(board.components[1].id, "B&C");
    assert_eq!(board.components[1].component_type, "l\"ib");
    assert_eq!(board.components[1].rotation, b(180.0));
    assert_eq!(board.components[2].rotation, b(22.5));
    assert!(board.nets.is_empty());
}

#[test]
fn eagle_dangling_references() {
    let fails = |signals: &str, kind: IntegrityKind, id: &str| {
        let file = board(R1, signals);
        assert_eq!(load_eagle_brd("demo.brd", file.as_bytes()).unwrap_err(), integrity(kind, id), "{signals}");
    };
    fails(
        r#"<signal name="GND"><contactref element="R1" pad="1"/><contactref element="R9" pad="2"/></signal>"#,
        IntegrityKind::UnknownComponent,
        "R9",
    );
    fails(
        r#"<signal name="GND"><contactref element="R1" pad="1"/></signal><wire x1="0" y1="0" x2="1" y2="0" width="0.2" layer="1"/>"#,
        IntegrityKind::UnknownNet,
        "",
    );
    fails(
        r#"<contactref element="R1" pad="1"/><signal name="GND"/>"#,
        IntegrityKind::UnknownNet,
        "",
    );
    fails(
        r#"<signal name="N"><wire x1="0" y1="0" x2="1" y2="0" width="0.2" layer="99"/></signal>"#,
        IntegrityKind::UnknownLayer,
        "99",
    );
    fails(
        r#"<signal name="N"><wire x1="0" y1="0" x2="1" y2="0" width="0" layer="1"/></signal>"#,
        IntegrityKind::DegenerateTrace,
        "N",
    );
}

#[test]
fn eagle_parse_failures() {
    let fails = |file: &str, reason: ParseFailure| {
        assert_eq!(load_eagle_brd("demo.brd", file.as_bytes()).unwrap_err(), parse_error(reason), "{file}")
    };
    fails("", ParseFailure::MalformedHeader);
    fails("<board/>", ParseFailure::MalformedHeader);
    fails("<eagle", ParseFailure::Truncated);
    fails("<eagle><drawing>", ParseFailure::Truncated);
    fails("<eagle><!-- open", ParseFailure::Truncated);
    fails("<eagle></drawing>", ParseFailure::InvalidSyntax);
    fails("</eagle>", ParseFailure::InvalidSyntax);
    fails("<eagle a=b/>", ParseFailure::InvalidSyntax);
    fails("<eagle><</eagle>", ParseFailure::InvalidSyntax);
    fails("<eagle a=\"&nbsp;\"/>", ParseFailure::InvalidSyntax);
    fails("<eagle a=\"&amp\"/>", ParseFailure::InvalidSyntax);
    fails("<eagle><![CDATA[x]]></eagle>", ParseFailure::UnsupportedEntity);
    fails("<!DOCTYPE eagle [<!ENTITY x \"y\">]><eagle/>", ParseFailure::UnsupportedEntity);
    fails("text<eagle/>", ParseFailure::UnexpectedToken);
    fails("<eagle/><eagle/>", ParseFailure::UnexpectedToken);
    fails("<eagle/>", ParseFailure::MissingField);
    fails("<eagle><drawing/></eagle>", ParseFailure::MissingField);
    fails(&board(r#"<element name="R1" x="1" y="2"/>"#, ""), ParseFailure::MissingField);
    fails(&board(r#"<element package="P" x="1" y="2"/>"#, ""), ParseFailure::MissingField);
    fails(&board(r#"<element name="R1" package="P" y="2"/>"#, ""), ParseFailure::MissingField);
    fails(&board(r#"<element name="R1" package="P" x="1mm" y="2"/>"#, ""), ParseFailure::InvalidNumber);
    fails(&board(r#"<element name="R1" package="P" x="1" y="2" rot="R"/>"#, ""), ParseFailure::InvalidNumber);
    fails(&board(r#"<element name="R1" package="P" x="1" y="2" rot="L90"/>"#, ""), ParseFailure::InvalidNumber);
    fails(&board(r#"<element name="R1" package="P" x="1" y="2" rot="R1e39"/>"#, ""), ParseFailure::OutOfRange);
    fails(&board(R1, "<signal/>"), ParseFailure::MissingField);
    fails(&board(R1, r#"<signal name="N"><contactref element="R1"/></signal>"#), ParseFailure::MissingField);
    fails(
        &board(R1, r#"<signal name="N"><wire x1="0" y1="0" x2="1" y2="0" layer="1"/></signal>"#),
        ParseFailure::MissingField,
    );
    fails(
        &board(R1, r#"<signal name="N"><wire x1="0" y1="0" x2="1" y2="0" width="0.2"/></signal>"#),
        ParseFailure::MissingField,
    );
    fails("<eagle><drawing><layers><layer number=\"1\"/></layers><board/></drawing></eagle>", ParseFailure::MissingField);
    assert_eq!(load_eagle_brd("demo.brd", &[0x3c, 0xff]).unwrap_err(), parse_error(ParseFailure::InvalidText));
}

#[test]
fn xml_tokens_and_entities() {
    let text: Vec<char> =
        "<?xml version='1.0'?><!-- c -- c --><a x = \"1 &lt; 2\" y='&quot;'> t &amp; u <b/><c ></c >\n</a>".chars().collect();
    let tokens = tokenize_xml(&text).unwrap();
    let shown: Vec<String> = tokens
        .iter()
        .map(|t| {
            format!("{:?}:{}:{}", t.kind, t.name.iter().collect::<String>(), t.value.iter().collect::<String>())
        })
        .collect();
    assert_eq!(
        shown,
        vec![
            "Open:a:", "Attribute:x:1 < 2", "Attribute:y:\"", "Text:: t & u ", "Open:b:", "Close::", "Open:c:", "Close::",
            "Close::"
        ]
    );
    let r = |s: &str| resolve(&s.chars().collect::<Vec<char>>()).map(|v| v.into_iter().collect::<String>());
    assert_eq!(r("a&lt;b&gt;c&amp;d&quot;e&apos;f"), Some("a<b>c&d\"e'f".to_string()));
    assert_eq!(r(""), Some(String::new()));
    assert_eq!(r("&"), None);
    assert_eq!(r("&lt"), None);
    assert_eq!(r("&#65;"), None);
    assert_eq!(r("&LT;"), None);
}
