use pandora_backend::game_output::{GameOutputEvent, GameOutputLogLevel};
use pandora_backend::log_reader::{
    assemble, parse_level, GameOutputIds, LogReader, LogStep, XmlAttribute, XmlEvent,
};
use pandora_backend::message::MessageToFrontend;

fn read_all(xml: &str, now: i64) -> Vec<GameOutputEvent> {
    let mut reader = quick_xml::reader::Reader::from_str(xml);
    let mut log = LogReader::new();
    let mut records = Vec::new();
    loop {
        let event = seen(&reader.read_event().unwrap());
        match log.handle_event(&event, now) {
            LogStep::Continue => {}
            LogStep::Record(record) => records.push(record),
            LogStep::Finished(record) => {
                records.push(record);
                return records;
            }
        }
    }
}

fn seen(event: &quick_xml::events::Event) -> XmlEvent {
    match event {
        quick_xml::events::Event::Start(tag) => XmlEvent::Start {
            name: tag.name().as_ref().to_vec(),
            attributes: tag
                .attributes()
                .map(|item| {
                    item.ok().map(|a| XmlAttribute { key: a.key.as_ref().to_vec(), value: a.value.to_vec() })
                })
                .collect(),
        },
        quick_xml::events::Event::End(_) => XmlEvent::End,
        quick_xml::events::Event::CData(content) => XmlEvent::CData(content.to_vec()),
        quick_xml::events::Event::Eof => XmlEvent::Eof,
        _ => XmlEvent::Other,
    }
}

fn end_record(now: i64) -> GameOutputEvent {
    GameOutputEvent {
        time: now,
        thread: "main".to_string(),
        level: GameOutputLogLevel::Info,
        lines: vec!["<end of output>".to_string()],
    }
}

fn attribute(key: &str, value: &str) -> Option<XmlAttribute> {
    Some(XmlAttribute { key: key.as_bytes().to_vec(), value: value.as_bytes().to_vec() })
}

fn start(name: &str, attributes: Vec<Option<XmlAttribute>>) -> XmlEvent {
    XmlEvent::Start { name: name.as_bytes().to_vec(), attributes }
}

fn cdata(text: &str) -> XmlEvent {
    XmlEvent::CData(text.as_bytes().to_vec())
}

#[test]
fn two_line_message_gives_two_trimmed_lines() {
    let xml = "<log4j:Event logger=\"net.minecraft.client.Main\" timestamp=\"1700000000000\" level=\"INFO\" thread=\"Render thread\">\n  <log4j:Message><![CDATA[Setting user: Player  \nBackend library: LWJGL\t\n]]></log4j:Message>\n</log4j:Event>\n";
    let records = read_all(xml, 7);
    assert_eq!(
        records,
        vec![
            GameOutputEvent {
                time: 1700000000000,
                thread: "Render thread".to_string(),
                level: GameOutputLogLevel::Info,
                lines: vec!["Setting user: Player".to_string(), "Backend library: LWJGL".to_string()],
            },
            end_record(7),
        ]
    );
}

#[test]
fn message_lines_come_before_throwable_lines() {
    let xml = "<log4j:Event logger=\"x\" timestamp=\"12\" level=\"ERROR\" thread=\"Server thread\"><log4j:Message><![CDATA[Something failed]]></log4j:Message><log4j:Throwable><![CDATA[java.lang.IllegalStateException: boom\n\tat a.b.C.run(C.java:1)\n\tat d.e.F.main(F.java:2)\n]]></log4j:Throwable></log4j:Event>";
    let records = read_all(xml, 0);
    assert_eq!(records.len(), 2);
    assert_eq!(records[0].time, 12);
    assert_eq!(records[0].thread, "Server thread");
    assert_eq!(records[0].level, GameOutputLogLevel::Error);
    assert_eq!(
        records[0].lines,
        vec![
            "Something failed",
            "java.lang.IllegalStateException: boom",
            "\tat a.b.C.run(C.java:1)",
            "\tat d.e.F.main(F.java:2)",
        ]
    );
}

#[test]
fn multi_line_message_and_single_line_throwable_are_both_kept() {
    assert_eq!(
        assemble(Some("a\nb".to_string()), Some("c".to_string())),
        vec!["a", "b", "c"]
    );
}

#[test]
fn event_without_content_gets_placeholder() {
    assert_eq!(assemble(None, None), vec!["<empty>"]);
    let records = read_all("<log4j:Event timestamp=\"1\" level=\"WARN\" thread=\"t\"></log4j:Event>", 3);
    assert_eq!(records[0].lines, vec!["<empty>"]);
    assert_eq!(records[0].level, GameOutputLogLevel::Warn);
}

#[test]
fn throwable_alone_is_split() {
    assert_eq!(assemble(None, Some("x\n  y \n".to_string())), vec!["x", "  y"]);
    assert_eq!(assemble(Some("only  ".to_string()), None), vec!["only"]);
    assert_eq!(assemble(Some(String::new()), None), vec![""]);
}

#[test]
fn several_events_give_several_records_in_order() {
    let xml = "<log4j:Event timestamp=\"1\" level=\"DEBUG\" thread=\"a\"><log4j:Message><![CDATA[one]]></log4j:Message></log4j:Event>\n<log4j:Event timestamp=\"2\" level=\"TRACE\" thread=\"b\"><log4j:Message><![CDATA[two]]></log4j:Message></log4j:Event>";
    let records = read_all(xml, 9);
    assert_eq!(records.len(), 3);
    assert_eq!((records[0].time, records[0].level), (1, GameOutputLogLevel::Debug));
    assert_eq!(records[0].lines, vec!["one"]);
    assert_eq!((records[1].time, records[1].level), (2, GameOutputLogLevel::Trace));
    assert_eq!(records[1].thread, "b");
    assert_eq!(records[1].lines, vec!["two"]);
    assert_eq!(records[2], end_record(9));
}

#[test]
fn levels_map_to_their_severity() {
    assert_eq!(parse_level(b"FATAL"), GameOutputLogLevel::Fatal);
    assert_eq!(parse_level(b"ERROR"), GameOutputLogLevel::Error);
    assert_eq!(parse_level(b"WARN"), GameOutputLogLevel::Warn);
    assert_eq!(parse_level(b"INFO"), GameOutputLogLevel::Info);
    assert_eq!(parse_level(b"DEBUG"), GameOutputLogLevel::Debug);
    assert_eq!(parse_level(b"TRACE"), GameOutputLogLevel::Trace);
    assert_eq!(parse_level(b"info"), GameOutputLogLevel::Other);
    assert_eq!(parse_level(b"WARNING"), GameOutputLogLevel::Other);
    assert_eq!(parse_level(b""), GameOutputLogLevel::Other);
}

#[test]
fn missing_attributes_take_defaults() {
    let mut log = LogReader::new();
    let events = vec![start("log4j:Event", vec![]), XmlEvent::End];
    let records = log.handle_events(&events, 0);
    assert_eq!(
        records,
        vec![GameOutputEvent {
            time: 0,
            thread: "<unknown thread>".to_string(),
            level: GameOutputLogLevel::Other,
            lines: vec!["<empty>".to_string()],
        }]
    );
}

#[test]
fn bad_attribute_values_are_passed_over() {
    let mut log = LogReader::new();
    let events = vec![
        XmlEvent::Start {
            name: b"log4j:Event".to_vec(),
            attributes: vec![
                attribute("timestamp", "55"),
                attribute("timestamp", "not a number"),
                None,
                attribute("thread", "worker"),
                Some(XmlAttribute { key: b"thread".to_vec(), value: vec![0xff, 0xfe] }),
                attribute("level", "INFO"),
                attribute("level", "LOUD"),
                attribute("logger", "x"),
                attribute("mystery", "y"),
            ],
        },
        XmlEvent::End,
    ];
    let records = log.handle_events(&events, 0);
    assert_eq!(records.len(), 1);
    assert_eq!(records[0].time, 55);
    assert_eq!(records[0].thread, "worker");
    assert_eq!(records[0].level, GameOutputLogLevel::Other);
}

#[test]
fn later_attribute_overrides_earlier_one() {
    let mut log = LogReader::new();
    let events = vec![
        start(
            "log4j:Event",
            vec![attribute("thread", "a"), attribute("thread", "b"), attribute("timestamp", "1"), attribute("timestamp", "-2")],
        ),
        XmlEvent::End,
    ];
    let records = log.handle_events(&events, 0);
    assert_eq!(records[0].thread, "b");
    assert_eq!(records[0].time, -2);
}

#[test]
fn unknown_elements_do_not_disturb_the_stack() {
    let mut log = LogReader::new();
    let events = vec![
        start("log4j:Event", vec![attribute("level", "INFO")]),
        start("log4j:Properties", vec![]),
        start("log4j:Data", vec![]),
        cdata("ignored"),
        XmlEvent::End,
        XmlEvent::End,
        start("log4j:Message", vec![]),
        start("b", vec![]),
        cdata("ignored too"),
        XmlEvent::End,
        cdata("kept"),
        XmlEvent::End,
        XmlEvent::Other,
        XmlEvent::End,
    ];
    let mut records = Vec::new();
    for event in &events {
        if let LogStep::Record(record) = log.handle_event(event, 0) {
            records.push(record);
        }
    }
    assert_eq!(log.depth(), 0);
    assert_eq!(records.len(), 1);
    assert_eq!(records[0].lines, vec!["kept"]);
}

#[test]
fn top_level_unknown_element_gives_no_record() {
    let mut log = LogReader::new();
    let events = vec![
        start("something", vec![]),
        start("log4j:Event", vec![]),
        XmlEvent::End,
        XmlEvent::End,
        XmlEvent::End,
        cdata("stray"),
    ];
    assert_eq!(log.handle_events(&events, 0), vec![]);
    assert_eq!(log.depth(), 0);
}

#[test]
fn message_outside_an_event_is_unknown() {
    let mut log = LogReader::new();
    let events = vec![start("log4j:Message", vec![]), cdata("text"), XmlEvent::End];
    assert_eq!(log.handle_events(&events, 0), vec![]);
}

#[test]
fn latest_character_data_wins() {
    let mut log = LogReader::new();
    let events = vec![
        start("log4j:Event", vec![]),
        start("log4j:Message", vec![]),
        cdata("first"),
        cdata("second"),
        XmlEvent::End,
        XmlEvent::End,
    ];
    let records = log.handle_events(&events, 0);
    assert_eq!(records[0].lines, vec!["second"]);
}

#[test]
fn malformed_utf8_in_character_data_is_replaced() {
    let mut log = LogReader::new();
    let events = vec![
        start("log4j:Event", vec![]),
        start("log4j:Message", vec![]),
        XmlEvent::CData(vec![b'a', 0xff, b'b']),
        XmlEvent::End,
        XmlEvent::End,
    ];
    let records = log.handle_events(&events, 0);
    assert_eq!(records[0].lines, vec!["a\u{fffd}b"]);
}

#[test]
fn end_of_stream_closes_the_output_and_stops() {
    let mut log = LogReader::new();
    let events = vec![
        start("log4j:Event", vec![]),
        XmlEvent::End,
        XmlEvent::Eof,
        start("log4j:Event", vec![]),
        XmlEvent::End,
    ];
    let records = log.handle_events(&events, 1234);
    assert_eq!(records.len(), 2);
    assert_eq!(records[1], end_record(1234));
    assert_eq!(GameOutputEvent::end_of_output(5), end_record(5));
}

#[test]
fn record_becomes_a_message_for_its_stream() {
    let message = end_record(8).into_message(3);
    assert_eq!(
        message,
        MessageToFrontend::AddGameOutput {
            id: 3,
            time: 8,
            thread: "main".to_string(),
            level: GameOutputLogLevel::Info,
            text: vec!["<end of output>".to_string()],
        }
    );
}

#[test]
fn empty_elements_and_text_are_passed_over() {
    let xml = "<?xml version=\"1.0\"?>\n<!-- note -->\nplain text\n<log4j:Event timestamp=\"4\" level=\"FATAL\" thread=\"t\"><log4j:Extra/><log4j:Message><![CDATA[m]]></log4j:Message></log4j:Event>";
    let records = read_all(xml, 0);
    assert_eq!(records.len(), 2);
    assert_eq!(records[0].level, GameOutputLogLevel::Fatal);
    assert_eq!(records[0].lines, vec!["m"]);
}

#[test]
fn output_stream_opens_a_window_and_sends_its_records() {
    let events = vec![
        start("log4j:Event", vec![attribute("timestamp", "5"), attribute("level", "INFO"), attribute("thread", "main")]),
        start("log4j:Message", vec![]),
        cdata("hello\nworld"),
        XmlEvent::End,
        XmlEvent::End,
        XmlEvent::Eof,
    ];
    let messages = pandora_backend::log_reader::start_game_output(4, &events, 99);
    assert_eq!(
        messages,
        vec![
            MessageToFrontend::CreateGameOutputWindow { id: 4 },
            MessageToFrontend::AddGameOutput {
                id: 4,
                time: 5,
                thread: "main".to_string(),
                level: GameOutputLogLevel::Info,
                text: vec!["hello".to_string(), "world".to_string()],
            },
            MessageToFrontend::AddGameOutput {
                id: 4,
                time: 99,
                thread: "main".to_string(),
                level: GameOutputLogLevel::Info,
                text: vec!["<end of output>".to_string()],
            },
        ]
    );
    assert_eq!(
        pandora_backend::log_reader::start_game_output(0, &vec![], 1),
        vec![MessageToFrontend::CreateGameOutputWindow { id: 0 }]
    );
    assert_eq!(end_record(3).to_message(2), end_record(3).into_message(2));
}

#[test]
fn output_streams_get_numbers_in_turn() {
    let mut ids = GameOutputIds::new();
    assert_eq!(ids.mint(), 0);
    assert_eq!(ids.mint(), 1);
    assert_eq!(ids.mint(), 2);
}
