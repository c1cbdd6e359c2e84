use hardware_ingest::csv::decode_csv_data;
use hardware_ingest::documents::{
    extract_document_metadata, extract_hardware_data, extract_pdf_data, extract_pdf_metadata,
    extract_text_data, extract_text_metadata,
};
use hardware_ingest::error::{DecodeError, Format, ParseFailure};
use hardware_ingest::hardware::{DocumentMetadata, ExtractedData};

fn parse_error(format: Format, reason: ParseFailure) -> DecodeError {
    DecodeError::ParseError { format, reason }
}

fn nothing() -> DocumentMetadata {
    DocumentMetadata {
        title: None,
        author: None,
        version: None,
        revision: None,
        pages: None,
        manufacturer: None,
        part_number: None,
        description: None,
        tags: vec![],
    }
}

fn no_data(summary: Option<&str>) -> ExtractedData {
    ExtractedData {
        register_maps: None,
        timing_constraints: None,
        pinouts: None,
        electrical_specs: None,
        configurations: None,
        summary: summary.map(String::from),
    }
}

const NOT_FOUND_IN_TEXT: &str = "No structured hardware data was found in the text.";

const REGISTERS: &str = r#"{
  "title": "LM75 register map", "author": "ACME", "version": "1.2", "revision": "B",
  "pages": 12, "manufacturer": "ACME Semiconductor", "part_number": "LM75A",
  "description": "Digital temperature sensor", "tags": ["sensor", 7, "i2c"],
  "summary": "One register",
  "registers": [
    {"name": "CONF", "address": "0x01", "description": "Configuration", "bit_width": 8, "access": "rw",
     "fields": [
       {"name": "SHUTDOWN", "bit_range": [0], "description": "Shutdown mode",
        "enum_values": [{"value": "0", "description": "normal"}, {"value": "1", "description": "shutdown"}]},
       {"name": "FAULT_QUEUE", "bit_range": [3, 4], "description": "Fault queue"}
     ]}
  ],
  "timing_constraints": [
    {"name": "t_conv", "parameter": "Conversion time", "typ": 100, "max": 300.5, "unit": "ms", "condition": "25 C"}
  ],
  "pinouts": [
    {"pin_number": "A1", "name": "SDA", "pin_type": "io", "function": "I2C data"}
  ],
  "electrical_specs": [
    {"parameter": "VCC", "min": 2.8, "typ": 3.3, "max": 5.5, "unit": "V"},
    {"parameter": "I_q", "max": -1e-3, "unit": "A"}
  ],
  "configurations": [
    {"name": "default", "description": "Power-on defaults", "settings": {"os_polarity": "low", "queue": [1, 2]}}
  ]
}"#;

#[test]
fn json_registers_with_one_entry_missing_reset_value() {
    let data = extract_text_data("sheets/lm75.json", REGISTERS.as_bytes()).unwrap();
    let maps = data.register_maps.unwrap();
    assert_eq!(maps.len(), 1);
    let r = &maps[0];
    assert_eq!(r.reset_value, None);
    assert_eq!(r.name, "CONF");
    assert_eq!(r.address, "0x01");
    assert_eq!(r.description, "Configuration");
    assert_eq!(r.bit_width, 8);
    assert_eq!(r.access, "rw");
    let fields = r.fields.as_ref().unwrap();
    assert_eq!(fields.len(), 2);
    assert_eq!(fields[0].name, "SHUTDOWN");
    assert_eq!(fields[0].bit_range, vec![0]);
    assert_eq!(fields[0].description, "Shutdown mode");
    let values = fields[0].enum_values.as_ref().unwrap();
    assert_eq!((values[1].value.as_str(), values[1].description.as_str()), ("1", "shutdown"));
    assert_eq!(fields[1].bit_range, vec![3, 4]);
    assert_eq!(fields[1].enum_values, None);
}

#[test]
fn json_other_categories() {
    let data = extract_text_data("lm75.JSON", REGISTERS.as_bytes()).unwrap();
    let t = &data.timing_constraints.as_ref().unwrap()[0];
    assert_eq!((t.name.as_str(), t.parameter.as_str(), t.unit.as_str()), ("t_conv", "Conversion time", "ms"));
    assert_eq!(t.min, None);
    assert_eq!(t.typ, Some(100.0f64.to_bits()));
    assert_eq!(t.max, Some(300.5f64.to_bits()));
    assert_eq!(t.condition.as_deref(), Some("25 C"));
    let p = &data.pinouts.as_ref().unwrap()[0];
    assert_eq!((p.pin_number.as_str(), p.name.as_str(), p.pin_type.as_str()), ("A1", "SDA", "io"));
    assert_eq!(p.description, None);
    assert_eq!(p.function.as_deref(), Some("I2C data"));
    let e = data.electrical_specs.as_ref().unwrap();
    assert_eq!(e.len(), 2);
    assert_eq!((e[0].min, e[0].typ, e[0].max), (Some(2.8f64.to_bits()), Some(3.3f64.to_bits()), Some(5.5f64.to_bits())));
    assert_eq!((e[1].min, e[1].typ, e[1].max), (None, None, Some((-1e-3f64).to_bits())));
    let c = &data.configurations.as_ref().unwrap()[0];
    assert_eq!(c.name, "default");
    assert_eq!(c.settings["os_polarity"].as_str(), Some("low"));
    assert_eq!(c.settings["queue"][1].as_u64(), Some(2));
    assert_eq!(data.summary.as_deref(), Some("One register"));
}

#[test]
fn json_metadata() {
    let m = extract_text_metadata("lm75.json", REGISTERS.as_bytes()).unwrap();
    assert_eq!(m.title.as_deref(), Some("LM75 register map"));
    assert_eq!(m.author.as_deref(), Some("ACME"));
    assert_eq!(m.version.as_deref(), Some("1.2"));
    assert_eq!(m.revision.as_deref(), Some("B"));
    assert_eq!(m.pages, Some(12));
    assert_eq!(m.manufacturer.as_deref(), Some("ACME Semiconductor"));
    assert_eq!(m.part_number.as_deref(), Some("LM75A"));
    assert_eq!(m.description.as_deref(), Some("Digital temperature sensor"));
    assert_eq!(m.tags, vec!["sensor", "i2c"]);
    assert_eq!(extract_text_metadata("x.json", b"{\"title\": 5, \"pages\": -1, \"tags\": \"a\"}").unwrap(), nothing());
    assert_eq!(extract_text_metadata("x.json", b"{\"pages\": 4294967296}").unwrap(), nothing());
    assert_eq!(extract_text_metadata("x.json", b"[1, 2]").unwrap(), nothing());
}

#[test]
fn json_absent_and_empty_categories() {
    assert_eq!(extract_text_data("x.json", b"{}").unwrap(), no_data(None));
    assert_eq!(extract_text_data("x.json", b"null").unwrap(), no_data(None));
    assert_eq!(extract_text_data("x.json", b"{\"registers\": null, \"pinouts\": 3}").unwrap(), no_data(None));
    let data = extract_text_data("x.json", b"{\"registers\": [], \"pinouts\": []}").unwrap();
    assert_eq!(data.register_maps, Some(vec![]));
    assert_eq!(data.pinouts, Some(vec![]));
    assert_eq!(data.timing_constraints, None);
    assert_eq!(data.electrical_specs, None);
    assert_eq!(data.configurations, None);
}

#[test]
fn json_failures() {
    let fails = |text: &str, reason: ParseFailure| {
        assert_eq!(
            extract_text_data("x.json", text.as_bytes()).unwrap_err(),
            parse_error(Format::Json, reason),
            "{text}"
        )
    };
    fails("", ParseFailure::InvalidSyntax);
    fails("{\"registers\": [", ParseFailure::InvalidSyntax);
    fails("{} trailing", ParseFailure::InvalidSyntax);
    fails("{\"registers\": [{}]}", ParseFailure::MissingField);
    fails("{\"registers\": [7]}", ParseFailure::MissingField);
    let reg = |extra: &str| {
        format!(
            "{{\"registers\": [{{\"name\": \"A\", \"address\": \"0\", \"description\": \"d\", \"bit_width\": 8, \"access\": \"r\"{extra}}}]}}"
        )
    };
    assert!(extract_text_data("x.json", reg("").as_bytes()).is_ok());
    assert!(extract_text_data("x.json", reg(", \"reset_value\": \"0xFF\"").as_bytes()).unwrap().register_maps.unwrap()[0]
        .reset_value
        .as_deref()
        == Some("0xFF"));
    fails(&reg(", \"fields\": [{\"name\": \"f\", \"description\": \"d\"}]"), ParseFailure::MissingField);
    fails(&reg(", \"fields\": [{\"name\": \"f\", \"description\": \"d\", \"bit_range\": []}]"), ParseFailure::MissingField);
    fails(
        &reg(", \"fields\": [{\"name\": \"f\", \"description\": \"d\", \"bit_range\": [1, 2, 3]}]"),
        ParseFailure::MissingField,
    );
    fails(&reg(", \"fields\": [{\"name\": \"f\", \"description\": \"d\", \"bit_range\": [8]}]"), ParseFailure::OutOfRange);
    fails(&reg(", \"fields\": [{\"name\": \"f\", \"description\": \"d\", \"bit_range\": [4, 2]}]"), ParseFailure::OutOfRange);
    fails(&reg(", \"fields\": [{\"name\": \"f\", \"description\": \"d\", \"bit_range\": [0, 8]}]"), ParseFailure::OutOfRange);
    fails(
        &reg(", \"fields\": [{\"name\": \"f\", \"description\": \"d\", \"bit_range\": [0], \"enum_values\": [{\"value\": \"1\"}]}]"),
        ParseFailure::MissingField,
    );
    fails(
        "{\"registers\": [{\"name\": \"A\", \"address\": \"0\", \"description\": \"d\", \"bit_width\": \"8\", \"access\": \"r\"}]}",
        ParseFailure::MissingField,
    );
    fails("{\"timing_constraints\": [{\"name\": \"t\", \"parameter\": \"p\", \"unit\": \"s\"}]}", ParseFailure::OutOfRange);
    fails(
        "{\"timing_constraints\": [{\"name\": \"t\", \"parameter\": \"p\", \"unit\": \"s\", \"min\": 2, \"max\": 1}]}",
        ParseFailure::OutOfRange,
    );
    fails("{\"electrical_specs\": [{\"parameter\": \"p\", \"typ\": 1}]}", ParseFailure::MissingField);
    fails("{\"pinouts\": [{\"pin_number\": 1, \"name\": \"a\", \"pin_type\": \"io\"}]}", ParseFailure::MissingField);
    fails("{\"configurations\": [{\"name\": \"c\", \"description\": \"d\"}]}", ParseFailure::MissingField);
    assert_eq!(
        extract_text_metadata("x.json", b"{").unwrap_err(),
        parse_error(Format::Json, ParseFailure::InvalidSyntax)
    );
    let ok = extract_text_data(
        "x.json",
        b"{\"timing_constraints\": [{\"name\": \"t\", \"parameter\": \"p\", \"unit\": \"s\", \"min\": 1, \"max\": 1}]}",
    );
    assert!(ok.is_ok());
}

const XML: &str = r#"<?xml version="1.0"?>
<datasheet>
  <title>LM75 &amp; friends</title>
  <author>ACME</author>
  <pages>12</pages>
  <part_number>LM75A</part_number>
  <tags><tag>sensor</tag><other>x</other><tag>i2c</tag><tag/></tags>
  <summary>Two registers</summary>
  <registers>
    <register name="CONF" address="0x01" description="Configuration" bit_width="8" access="rw" reset_value="0x00">
      <field name="SHUTDOWN" description="Shutdown mode" low="0"/>
      <field name="FAULT_QUEUE" description="Fault queue" low="3" high="4"/>
    </register>
    <register name="TEMP" address="0x00" description="Temperature" bit_width="16" access="ro"/>
  </registers>
  <timing_constraints>
    <constraint name="t_conv" parameter="Conversion time" typ="100" max="3.005e2" unit="ms"/>
  </timing_constraints>
  <pinouts>
    <pin pin_number="1" name="SDA" pin_type="io" description="data"/>
  </pinouts>
  <electrical_specs>
    <spec parameter="VCC" min="2.8" max="5.5" unit="V" condition="full range"/>
  </electrical_specs>
</datasheet>
"#;

#[test]
fn xml_document() {
    let m = extract_text_metadata("lm75.xml", XML.as_bytes()).unwrap();
    assert_eq!(m.title.as_deref(), Some("LM75 & friends"));
    assert_eq!(m.author.as_deref(), Some("ACME"));
    assert_eq!(m.pages, Some(12));
    assert_eq!(m.part_number.as_deref(), Some("LM75A"));
    assert_eq!(m.version, None);
    assert_eq!(m.tags, vec!["sensor", "i2c"]);
    let data = extract_text_data("lm75.xml", XML.as_bytes()).unwrap();
    let maps = data.register_maps.unwrap();
    assert_eq!(maps.len(), 2);
    assert_eq!(maps[0].reset_value.as_deref(), Some("0x00"));
    let fields = maps[0].fields.as_ref().unwrap();
    assert_eq!(fields[0].bit_range, vec![0]);
    assert_eq!(fields[1].bit_range, vec![3, 4]);
    assert_eq!(fields[1].name, "FAULT_QUEUE");
    assert_eq!(maps[1].fields, None);
    assert_eq!(maps[1].reset_value, None);
    assert_eq!(maps[1].bit_width, 16);
    let t = &data.timing_constraints.unwrap()[0];
    assert_eq!((t.min, t.typ, t.max), (None, Some(100.0f64.to_bits()), Some(300.5f64.to_bits())));
    let p = &data.pinouts.unwrap()[0];
    assert_eq!((p.pin_number.as_str(), p.description.as_deref(), p.function.as_deref()), ("1", Some("data"), None));
    let e = &data.electrical_specs.unwrap()[0];
    assert_eq!((e.min, e.typ, e.max), (Some(2.8f64.to_bits()), None, Some(5.5f64.to_bits())));
    assert_eq!(e.condition.as_deref(), Some("full range"));
    assert_eq!(data.configurations, None);
    assert_eq!(data.summary.as_deref(), Some("Two registers"));
}

#[test]
fn xml_document_failures() {
    let fails = |text: &str, reason: ParseFailure| {
        assert_eq!(extract_text_data("x.xml", text.as_bytes()).unwrap_err(), parse_error(Format::Xml, reason), "{text}")
    };
    fails("", ParseFailure::InvalidSyntax);
    fails("<a>", ParseFailure::Truncated);
    fails("<a></b>", ParseFailure::InvalidSyntax);
    fails("<a/><b/>", ParseFailure::InvalidSyntax);
    fails("<a><registers><register/></registers></a>", ParseFailure::MissingField);
    fails(
        "<a><registers><register name='n' address='0' description='d' bit_width='x' access='r'/></registers></a>",
        ParseFailure::InvalidNumber,
    );
    fails(
        "<a><registers><register name='n' address='0' description='d' bit_width='8' access='r'><field name='f' description='d' low='8'/></register></registers></a>",
        ParseFailure::OutOfRange,
    );
    fails(
        "<a><registers><register name='n' address='0' description='d' bit_width='8' access='r'><field name='f' description='d' high='1'/></register></registers></a>",
        ParseFailure::MissingField,
    );
    fails("<a><electrical_specs><spec parameter='p' unit='V'/></electrical_specs></a>", ParseFailure::OutOfRange);
    fails("<a><electrical_specs><spec parameter='p' unit='V' min='2' max='1'/></electrical_specs></a>", ParseFailure::OutOfRange);
    fails("<a><electrical_specs><spec parameter='p' unit='V' min='low'/></electrical_specs></a>", ParseFailure::InvalidNumber);
    fails("<a><pinouts><pin name='a' pin_type='io'/></pinouts></a>", ParseFailure::MissingField);
    assert_eq!(extract_text_data("x.xml", b"<a/>").unwrap(), no_data(None));
    assert_eq!(extract_text_data("x.xml", b"<a><registers/></a>").unwrap().register_maps, Some(vec![]));
    assert_eq!(extract_text_metadata("x.xml", b"<a><title/></a>").unwrap(), nothing());
    assert_eq!(
        extract_text_metadata("x.xml", b"<a").unwrap_err(),
        parse_error(Format::Xml, ParseFailure::Truncated)
    );
    assert_eq!(
        extract_text_metadata("x.xml", &[0x3c, 0x61, 0xff]).unwrap_err(),
        parse_error(Format::Xml, ParseFailure::InvalidText)
    );
}

#[test]
fn csv_registers() {
    let text = "Name, Address ,Description,Bit_Width,Access,Reset_Value\r\nCTRL,0x00,\"Control, \"\"main\"\"\",8,rw,0x01\r\nSTAT,0x04,Status,16,ro,\r\nBAD,0x08,Broken,wide,rw,\r\n\r\nSHORT,0x0c\r\n";
    let data = extract_text_data("regs.csv", text.as_bytes()).unwrap();
    let maps = data.register_maps.unwrap();
    assert_eq!(maps.len(), 2);
    assert_eq!(maps[0].name, "CTRL");
    assert_eq!(maps[0].address, "0x00");
    assert_eq!(maps[0].description, "Control, \"main\"");
    assert_eq!(maps[0].bit_width, 8);
    assert_eq!(maps[0].access, "rw");
    assert_eq!(maps[0].reset_value.as_deref(), Some("0x01"));
    assert_eq!(maps[0].fields, None);
    assert_eq!(maps[1].name, "STAT");
    assert_eq!(maps[1].bit_width, 16);
    assert_eq!(maps[1].reset_value, None);
    assert_eq!(data.pinouts, None);
    assert_eq!(data.summary, None);
}

#[test]
fn csv_pinouts_with_semicolons_and_tabs() {
    let data = extract_text_data("pins.csv", b"pin_number;name;pin_type;function\nA1;VCC;power;\nA2;GND;ground;return, all\n;X;io;\n").unwrap();
    let pins = data.pinouts.unwrap();
    assert_eq!(pins.len(), 2);
    assert_eq!((pins[0].pin_number.as_str(), pins[0].name.as_str(), pins[0].pin_type.as_str()), ("A1", "VCC", "power"));
    assert_eq!(pins[0].function, None);
    assert_eq!(pins[1].function.as_deref(), Some("return, all"));
    assert_eq!(pins[1].description, None);
    let data = extract_text_data("pins.csv", b"PIN_NUMBER\tNAME\tPIN_TYPE\n1\tA\tio\n").unwrap();
    assert_eq!(data.pinouts.unwrap()[0].name, "A");
}

#[test]
fn csv_limits() {
    let chars: Vec<char> = "parameter,min,typ,max,unit,condition\nVCC,2.8,3.3,5.5,V,\nI_q,,,1e-3,A,sleep\nbad,5,,1,V,\nnone,,,,V,\nworse,x,,,V,\n"
        .chars()
        .collect();
    let data = decode_csv_data(&chars);
    let specs = data.electrical_specs.unwrap();
    assert_eq!(specs.len(), 2);
    assert_eq!(specs[0].parameter, "VCC");
    assert_eq!((specs[0].min, specs[0].typ, specs[0].max), (Some(2.8f64.to_bits()), Some(3.3f64.to_bits()), Some(5.5f64.to_bits())));
    assert_eq!(specs[0].condition, None);
    assert_eq!((specs[1].min, specs[1].max), (None, Some(1e-3f64.to_bits())));
    assert_eq!(specs[1].condition.as_deref(), Some("sleep"));
    assert_eq!(data.timing_constraints, None);
    let data = extract_text_data("t.csv", b"name,parameter,unit,max\nt_su,Setup time,ns,5\n").unwrap();
    let t = &data.timing_constraints.unwrap()[0];
    assert_eq!((t.name.as_str(), t.parameter.as_str(), t.unit.as_str()), ("t_su", "Setup time", "ns"));
    assert_eq!((t.min, t.typ, t.max), (None, None, Some(5.0f64.to_bits())));
    assert_eq!(data.electrical_specs, None);
}

#[test]
fn text_without_structure() {
    assert_eq!(extract_text_data("notes.csv", b"a,b,c\n1,2,3\n").unwrap(), no_data(Some(NOT_FOUND_IN_TEXT)));
    assert_eq!(extract_text_data("notes.csv", b"").unwrap(), no_data(Some(NOT_FOUND_IN_TEXT)));
    assert_eq!(extract_text_data("notes.csv", &[0xff, 0xfe]).unwrap(), no_data(Some(NOT_FOUND_IN_TEXT)));
    assert_eq!(extract_text_data("notes.txt", b"name,address\n").unwrap(), no_data(Some(NOT_FOUND_IN_TEXT)));
    assert_eq!(extract_text_data("notes.txt", b"Just some words.\nAnd more.\n").unwrap(), no_data(Some(NOT_FOUND_IN_TEXT)));
    let pins = extract_text_data("pins.txt", b"pin_number\tname\tpin_type\n1\tVCC\tpower\n").unwrap().pinouts.unwrap();
    assert_eq!((pins.len(), pins[0].name.as_str()), (1, "VCC"));
    assert_eq!(extract_text_data("notes.txt", &[0xff]).unwrap(), no_data(Some(NOT_FOUND_IN_TEXT)));
    assert_eq!(extract_text_metadata("notes.txt", b"Title: x").unwrap(), nothing());
    assert_eq!(extract_text_metadata("notes.csv", b"title\nx\n").unwrap(), nothing());
}

const PDF: &str = "%PDF-1.4\n1 0 obj\n<< /Type /Catalog /Pages 2 0 R /PageLayout /OneColumn >>\nendobj\n2 0 obj\n<< /Type /Pages /Kids [3 0 R] /Count 17 >>\nendobj\n3 0 obj\n<< /Type /Page /Parent 2 0 R /Title (not this) >>\nendobj\n14 0 obj\n<< /Title (wrong object) >>\nendobj\n4 0 obj\n<< /Producer (tool) /Title (LM317 \\(adjustable\\) regulator \\\n(3-terminal)) /Author(ACME\\tInc.) /Subject (Data\\\\sheet) /Keywords ( regulator, linear ;; power,) >>\nendobj\ntrailer\n<< /Size 5 /Root 1 0 R /Info 4 0 R >>\nstartxref\n0\n%%EOF\n";

#[test]
fn pdf_document_information() {
    let m = extract_pdf_metadata(PDF.as_bytes()).unwrap();
    assert_eq!(m.title.as_deref(), Some("LM317 (adjustable) regulator (3-terminal)"));
    assert_eq!(m.author.as_deref(), Some("ACME\tInc."));
    assert_eq!(m.description.as_deref(), Some("Data\\sheet"));
    assert_eq!(m.tags, vec!["regulator", "linear", "power"]);
    assert_eq!(m.pages, Some(17));
    assert_eq!(m.version, None);
    assert_eq!(m.revision, None);
    assert_eq!(m.manufacturer, None);
    assert_eq!(m.part_number, None);
}

#[test]
fn pdf_without_information() {
    assert_eq!(extract_pdf_metadata(b"%PDF-1.7\n%%EOF\n").unwrap(), nothing());
    let no_info = "%PDF-1.4\n1 0 obj\n<< /Pages 2 0 R >>\nendobj\n2 0 obj\n<< /Count 3 >>\nendobj\ntrailer\n<< /Root 1 0 R >>\n";
    let m = extract_pdf_metadata(no_info.as_bytes()).unwrap();
    assert_eq!(m.pages, Some(3));
    assert_eq!(m.title, None);
    assert!(m.tags.is_empty());
    let odd = "%PDF-1.4\n4 0 obj\n<< /Title <FEFF 0041 00e9> /Author (A\\101\\1011\\0538\\12) /Subject (open /Keywords <4a 4B,\n4c4> >>\nendobj\ntrailer\n<< /Info 4 0 R /Root 9 0 R >>\n";
    let m = extract_pdf_metadata(odd.as_bytes()).unwrap();
    assert_eq!(m.title.as_deref(), Some("Aé"));
    assert_eq!(m.author.as_deref(), Some("AAA1+8\n"));
    assert_eq!(m.description, None);
    assert!(m.tags.is_empty());
    assert_eq!(m.pages, None);
    let bell = "%PDF-1.4\n4 0 obj\n<< /Title (a\\7) /Author (\\400) >>\nendobj\ntrailer\n<< /Info 4 0 R >>\n";
    let m = extract_pdf_metadata(bell.as_bytes()).unwrap();
    assert_eq!(m.title, None);
    assert_eq!(m.author, None);
    let hex = "%PDF-1.4\n4 0 obj\n<</Title<48 65 6C6c6F2>/Author<FEFF00410142>/Subject<FEFF004>/Keywords<</K 1>>>>\nendobj\ntrailer\n<< /Info 4 0 R >>\n";
    let m = extract_pdf_metadata(hex.as_bytes()).unwrap();
    assert_eq!(m.title.as_deref(), Some("Hello "));
    assert_eq!(m.author.as_deref(), Some("A\u{142}"));
    assert_eq!(m.description.as_deref(), Some("@"));
    assert!(m.tags.is_empty());
    let latin = b"%PDF-1.4\n4 0 obj\n<< /Title (caf\xe9) /Author (\x80) >>\nendobj\ntrailer\n<< /Info 4 0 R >>\n";
    let m = extract_pdf_metadata(latin).unwrap();
    assert_eq!(m.title.as_deref(), Some("café"));
    assert_eq!(m.author, None);
}

#[test]
fn pdf_strings_in_utf16() {
    let file = "%PDF-1.4\n4 0 obj\n<< /Title <FEFF 004F 03A9 D83D DE00 0021> /Author <FEFFD83D> /Subject <FEFFDE00D83D> /Keywords <FEFF00> >>\nendobj\ntrailer\n<< /Info 4 0 R >>\n";
    let m = extract_pdf_metadata(file.as_bytes()).unwrap();
    assert_eq!(m.title.as_deref(), Some("O\u{3a9}\u{1f600}!"));
    assert_eq!(m.author, None);
    assert_eq!(m.description, None);
    assert!(m.tags.is_empty());
    let mut bytes = b"%PDF-1.4\n4 0 obj\n<< /Title (".to_vec();
    bytes.extend_from_slice(&[0xfe, 0xff, 0x4e, 0x2d, 0x65, 0x87]);
    bytes.extend_from_slice(b") >>\nendobj\ntrailer\n<< /Info 4 0 R >>\n");
    assert_eq!(extract_pdf_metadata(&bytes).unwrap().title.as_deref(), Some("\u{4e2d}\u{6587}"));
}

fn pdf_with_stream(dictionary: &str, content: &str) -> Vec<u8> {
    format!(
        "%PDF-1.4\n1 0 obj\n<< /Type /Catalog /Pages 2 0 R >>\nendobj\n2 0 obj\n<< /Type /Pages /Kids [3 0 R] /Count 1 >>\nendobj\n3 0 obj\n<< /Type /Page /Parent 2 0 R /Contents 5 0 R >>\nendobj\n5 0 obj\n<< /Length {} {}>>\nstream\n{}\nendstream\nendobj\ntrailer\n<< /Size 6 /Root 1 0 R >>\n%%EOF\n",
        content.len(),
        dictionary,
        content
    )
    .into_bytes()
}

const REGISTER_PAGE: &str = "BT /F1 12 Tf 72 700 Td (Name) Tj 80 0 Td (Address) Tj 80 0 Td (Description) Tj 80 0. Td (Bit_Width) Tj 80 -0 Td (Access) Tj\n-320 -14 Td (CTRL) Tj 80 0 Td (0x00) Tj 80 0 Td (Control \\(main\\)) Tj 80 0 Td (8) Tj 80 0 Td (rw) Tj % a row\n-320 -14 Td (STAT) Tj 80 0 Td (0x04) Tj 80 0 Td (Status) Tj 80 0 Td (wide) Tj 80 0 Td (ro) Tj\nT* (TEMP) Tj 80 0 Td (0x08) Tj 80 0 Td (Temperature) Tj 80 0 Td (16) Tj 80 0 Td (ro) Tj ET";

#[test]
fn pdf_with_a_register_table() {
    let data = extract_pdf_data(&pdf_with_stream("", REGISTER_PAGE)).unwrap();
    let maps = data.register_maps.unwrap();
    assert_eq!(maps.len(), 2);
    assert_eq!(maps[0].name, "CTRL");
    assert_eq!(maps[0].address, "0x00");
    assert_eq!(maps[0].description, "Control (main)");
    assert_eq!(maps[0].bit_width, 8);
    assert_eq!(maps[0].access, "rw");
    assert_eq!(maps[0].reset_value, None);
    assert_eq!(maps[0].fields, None);
    assert_eq!(maps[1].name, "TEMP");
    assert_eq!(maps[1].bit_width, 16);
    assert_eq!(data.pinouts, None);
    assert_eq!(data.timing_constraints, None);
    assert_eq!(data.summary, None);
    let through = extract_hardware_data("sheet.PDF", "", Some(&pdf_with_stream("", REGISTER_PAGE))).unwrap();
    assert_eq!(through.register_maps.unwrap().len(), 2);
}

#[test]
fn pdf_with_a_table_of_placed_cells() {
    let content = "BT 1 0 0 1 72 700 Tm (pin_number) Tj ET BT 1 0 0 1 150 700.0 Tm (name) Tj ET\nBT 1 0 0 1 250 +0700.00 Tm (pin_type) Tj ET\nBT 1 0 0 1 72 686 Tm [(A) -20 (1)] TJ ET BT 1 0 0 1 150 686 Tm (VCC) Tj ET BT 1 0 0 1 250 686 Tm <706f 7765 72> Tj ET\nBT 72 672 Td (A2) Tj ET BT 150 672 Td (GND) Tj ET BT 250 672 Td <FEFF00670072006F0075006E0064> Tj ET";
    let data = extract_pdf_data(&pdf_with_stream("", content)).unwrap();
    let pins = data.pinouts.unwrap();
    assert_eq!(pins.len(), 2);
    assert_eq!((pins[0].pin_number.as_str(), pins[0].name.as_str(), pins[0].pin_type.as_str()), ("A1", "VCC", "power"));
    assert_eq!((pins[1].pin_number.as_str(), pins[1].name.as_str(), pins[1].pin_type.as_str()), ("A2", "GND", "ground"));
}

#[test]
fn pdf_with_lines_of_delimited_text() {
    let content = "BT 72 700 Td (parameter;min;max;unit) Tj T* (VCC;2.8;5.5;V) ' (I_q;;1e-3;A) \" 0 -14 Td (bad;5;1;V) Tj ET";
    let data = extract_pdf_data(&pdf_with_stream("", content)).unwrap();
    let specs = data.electrical_specs.unwrap();
    assert_eq!(specs.len(), 2);
    assert_eq!((specs[0].parameter.as_str(), specs[0].min, specs[0].max), ("VCC", Some(2.8f64.to_bits()), Some(5.5f64.to_bits())));
    assert_eq!((specs[1].parameter.as_str(), specs[1].min, specs[1].max), ("I_q", None, Some(1e-3f64.to_bits())));
}

#[test]
fn pdf_without_a_table() {
    let none = no_data(Some("No structured hardware data was found in the document."));
    assert_eq!(extract_pdf_data(&pdf_with_stream("", "BT 72 700 Td (Just a sentence.) Tj ET")).unwrap(), none);
    assert_eq!(extract_pdf_data(&pdf_with_stream("", "")).unwrap(), none);
    assert_eq!(extract_pdf_data(&pdf_with_stream("/Filter /FlateDecode ", REGISTER_PAGE)).unwrap(), none);
    assert_eq!(extract_pdf_data(&pdf_with_stream("/Filter [/ASCIIHexDecode] ", REGISTER_PAGE)).unwrap(), none);
    assert_eq!(extract_pdf_data(b"%PDF-1.4\n5 0 obj\n<< >>\nstream\nBT (Name) Tj").unwrap(), none);
    assert_eq!(extract_pdf_data(b"%PDF-1.4\nendstream endobj stream").unwrap(), none);
}

#[test]
fn pdf_failures_and_data() {
    assert_eq!(extract_pdf_metadata(b"").unwrap_err(), parse_error(Format::Pdf, ParseFailure::MalformedHeader));
    assert_eq!(extract_pdf_metadata(b"%PDF").unwrap_err(), parse_error(Format::Pdf, ParseFailure::MalformedHeader));
    assert_eq!(extract_pdf_metadata(b" %PDF-1.4").unwrap_err(), parse_error(Format::Pdf, ParseFailure::MalformedHeader));
    assert_eq!(extract_pdf_data(b"PK").unwrap_err(), parse_error(Format::Pdf, ParseFailure::MalformedHeader));
    assert_eq!(
        extract_pdf_data(PDF.as_bytes()).unwrap(),
        no_data(Some("No structured hardware data was found in the document."))
    );
}

#[test]
fn documents_are_chosen_by_extension() {
    let m = extract_document_metadata("sheets/LM317.PDF", "pdf", Some(PDF.as_bytes())).unwrap();
    assert_eq!(m.pages, Some(17));
    let m = extract_document_metadata("lm75.Json", "", Some(REGISTERS.as_bytes())).unwrap();
    assert_eq!(m.part_number.as_deref(), Some("LM75A"));
    let m = extract_document_metadata("lm75.xml", "json", Some(XML.as_bytes())).unwrap();
    assert_eq!(m.author.as_deref(), Some("ACME"));
    assert_eq!(extract_document_metadata("a.txt", "", Some(b"x")).unwrap(), nothing());
    assert_eq!(extract_document_metadata("a.csv", "", Some(b"x")).unwrap(), nothing());
    let d = extract_hardware_data("lm75.JSON", "", Some(REGISTERS.as_bytes())).unwrap();
    assert_eq!(d.register_maps.unwrap().len(), 1);
    let d = extract_hardware_data("lm75.xml", "", Some(XML.as_bytes())).unwrap();
    assert_eq!(d.register_maps.unwrap().len(), 2);
    assert_eq!(
        extract_hardware_data("x.pdf", "", Some(PDF.as_bytes())).unwrap().summary.as_deref(),
        Some("No structured hardware data was found in the document.")
    );
    assert_eq!(extract_hardware_data("x.txt", "", Some(b"hello")).unwrap(), no_data(Some(NOT_FOUND_IN_TEXT)));
    assert_eq!(
        extract_hardware_data("x.json", "", Some(b"{")).unwrap_err(),
        parse_error(Format::Json, ParseFailure::InvalidSyntax)
    );
    assert_eq!(
        extract_document_metadata("x.pdf", "", Some(b"{")).unwrap_err(),
        parse_error(Format::Pdf, ParseFailure::MalformedHeader)
    );
}

#[test]
fn documents_of_unknown_formats_are_described_by_their_name() {
    let expect = |path: &str, description: &str| {
        let m = extract_document_metadata(path, "", Some(b"anything")).unwrap();
        assert_eq!(m, DocumentMetadata { description: Some(description.to_string()), ..nothing() }, "{path}");
        assert_eq!(extract_hardware_data(path, "", Some(b"anything")).unwrap(), no_data(None));
    };
    expect("docs/readme.md", "readme.md");
    expect("/docs/board.xyz", "board.xyz");
    expect("LICENSE", "LICENSE");
    expect("docs/", "docs");
    expect("docs/..", "unknown");
    expect("/", "unknown");
    expect("", "unknown");
    expect("a.pdf.bak", "a.pdf.bak");
    expect("C:\\sheets\\part.docx", "part.docx");
}

#[test]
fn documents_that_do_not_exist() {
    for path in ["a.pdf", "a.json", "a.txt", "a.xml", "a.csv", "a.unknown", ""] {
        assert_eq!(
            extract_document_metadata(path, "pdf", None).unwrap_err(),
            DecodeError::FileNotFound { path: path.to_string() }
        );
        assert_eq!(
            extract_hardware_data(path, "pdf", None).unwrap_err(),
            DecodeError::FileNotFound { path: path.to_string() }
        );
    }
}

#[test]
fn documents_decode_alike_each_time() {
    for (path, bytes) in [("a.json", REGISTERS), ("a.xml", XML), ("a.pdf", PDF), ("a.csv", "name,b\n"), ("a.bin", "x"), ("a.json", "{")] {
        assert_eq!(
            extract_document_metadata(path, "", Some(bytes.as_bytes())),
            extract_document_metadata(path, "", Some(bytes.as_bytes()))
        );
        assert_eq!(
            extract_hardware_data(path, "", Some(bytes.as_bytes())),
            extract_hardware_data(path, "", Some(bytes.as_bytes()))
        );
    }
}
