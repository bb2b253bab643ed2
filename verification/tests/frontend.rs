use events_frontend::backend::{join_messages, response_data, BackendError};
use events_frontend::civil::{parse_datetime_str, CivilTime};
use events_frontend::days::{day_contexts, day_key};
use events_frontend::helper::{
    count_or_default, lookup, next_navigation_value, param_value, previous_navigation_html,
    render_add, render_template_items, select_count, time_custom_format, TemplateItem,
    TemplateParam,
};
use events_frontend::ics::{
    build_ics_document, event_url_string, format_stamp, parse_ics, split_lines,
};
use events_frontend::models::{
    get_event, get_location, get_tag, location_path, Event, EventInput, Location, LocationInput,
    Organizer, Tag, TagInput,
};
use events_frontend::numfmt::{i64_to_string, parse_i64, u64_to_string};
use events_frontend::pagination::{
    show_next, show_previous, Pagination, PaginationContext, DEFAULT_LIMIT,
};

fn sample_location() -> Location {
    Location {
        id: 7,
        name: "Hall".to_string(),
        website: None,
        street: "Main St".to_string(),
        street_number: 5,
        city: "Wien".to_string(),
        postal_code: 1010,
        country: "AT".to_string(),
        building: None,
        maps_link: "https://maps.example/7".to_string(),
    }
}

fn sample_event(id: i64, time: i64) -> Event {
    Event {
        id,
        name: format!("Event {}", id),
        description: "A description".to_string(),
        time,
        time_end: time + 3600,
        price: Some(10),
        currency: Some("EUR".to_string()),
        location: sample_location(),
        organizer: Some(Organizer {
            id: 1,
            name: "Org".to_string(),
            website: None,
        }),
        tags: Vec::new(),
    }
}

// pagination

#[test]
fn pagination_offsets_formula() {
    for p in [1u32, 2, 3, 10, 42] {
        let ctx = PaginationContext::for_page(Some(p));
        assert_eq!(ctx.limit, 100);
        assert_eq!(ctx.offset, 100 * (p - 1));
    }
}

#[test]
fn pagination_missing_or_zero_page_is_page_one() {
    let none = PaginationContext::for_page(None);
    assert_eq!((none.limit, none.offset), (100, 0));
    let zero = PaginationContext::for_page(Some(0));
    assert_eq!((zero.limit, zero.offset), (100, 0));
    let one = PaginationContext::for_page(Some(1));
    assert_eq!((one.limit, one.offset), (100, 0));
}

#[test]
fn pagination_default_is_first_page() {
    let d = PaginationContext::default();
    assert_eq!(d.limit, DEFAULT_LIMIT);
    assert_eq!(d.offset, 0);
}

#[test]
fn pagination_constraint_strings() {
    let ctx = PaginationContext::for_page(Some(5));
    let (limit, offset) = ctx.constraint_strings();
    assert_eq!(limit, "100");
    assert_eq!(offset, "400");
}

#[test]
fn pagination_from_counts_parses() {
    let p = Pagination::from_counts("12", "34", "-5").unwrap();
    assert_eq!(p.event_count, 12);
    assert_eq!(p.location_count, 34);
    assert_eq!(p.organizer_count, -5);
}

#[test]
fn pagination_from_counts_rejects_malformed() {
    assert!(Pagination::from_counts("12", "x", "56").is_none());
    assert!(Pagination::from_counts("", "0", "0").is_none());
    assert!(Pagination::from_counts("9223372036854775808", "0", "0").is_none());
}

#[test]
fn next_link_boundary_total_200() {
    // with 200 items and pages of 100, the next link is suppressed from
    // page 2 on: 2 >= 200 / 100
    assert!(show_next(1, 200, 100));
    assert!(!show_next(2, 200, 100));
    assert!(!show_next(3, 200, 100));
}

#[test]
fn next_link_boundary_total_250() {
    // 250 / 100 truncates to 2, so page 2 already loses its next link
    assert!(show_next(1, 250, 100));
    assert!(!show_next(2, 250, 100));
    assert!(!show_next(3, 250, 100));
}

#[test]
fn previous_link_only_away_from_page_one() {
    assert!(!show_previous(1));
    assert!(show_previous(2));
    assert!(show_previous(0));
}

// numfmt

#[test]
fn parse_i64_values() {
    assert_eq!(parse_i64("42"), Some(42));
    assert_eq!(parse_i64("-7"), Some(-7));
    assert_eq!(parse_i64("+0"), Some(0));
    assert_eq!(parse_i64("007"), Some(7));
    assert_eq!(parse_i64("9223372036854775807"), Some(i64::MAX));
    assert_eq!(parse_i64("-9223372036854775808"), Some(i64::MIN));
}

#[test]
fn parse_i64_rejects() {
    assert_eq!(parse_i64(""), None);
    assert_eq!(parse_i64("-"), None);
    assert_eq!(parse_i64("abc"), None);
    assert_eq!(parse_i64("1 2"), None);
    assert_eq!(parse_i64("9223372036854775808"), None);
    assert_eq!(parse_i64("-9223372036854775809"), None);
}

#[test]
fn integer_rendering() {
    assert_eq!(u64_to_string(0), "0");
    assert_eq!(u64_to_string(12345), "12345");
    assert_eq!(i64_to_string(-12345), "-12345");
    assert_eq!(i64_to_string(i64::MIN), "-9223372036854775808");
}

// day bucketing

#[test]
fn day_key_truncates_to_midnight() {
    assert_eq!(day_key(0), 0);
    assert_eq!(day_key(86399), 0);
    assert_eq!(day_key(86400), 86400);
    assert_eq!(day_key(100_000), 86400);
    assert_eq!(day_key(-1), -86400);
    assert_eq!(day_key(-86400), -86400);
    assert_eq!(day_key(-86401), -172800);
}

#[test]
fn bucketing_example_scenario() {
    let d = 86400 * 100;
    let events = vec![
        sample_event(1, d + 10),
        sample_event(2, d + 20),
        sample_event(3, d + 86400 + 5),
    ];
    let buckets = day_contexts(events);
    assert_eq!(buckets.len(), 2);
    assert_eq!(buckets[0].day, d);
    assert_eq!(
        buckets[0].events.iter().map(|e| e.id).collect::<Vec<_>>(),
        vec![1, 2]
    );
    assert_eq!(buckets[1].day, d + 86400);
    assert_eq!(
        buckets[1].events.iter().map(|e| e.id).collect::<Vec<_>>(),
        vec![3]
    );
}

#[test]
fn bucketing_sorts_days_and_keeps_input_order() {
    let d = 86400 * 10;
    let events = vec![
        sample_event(1, d + 3 * 86400),
        sample_event(2, d),
        sample_event(3, d + 3 * 86400 + 100),
        sample_event(4, d + 86400),
        sample_event(5, d + 50),
    ];
    let buckets = day_contexts(events);
    let days: Vec<i64> = buckets.iter().map(|b| b.day).collect();
    assert_eq!(days, vec![d, d + 86400, d + 3 * 86400]);
    let first: Vec<i64> = buckets[0].events.iter().map(|e| e.id).collect();
    assert_eq!(first, vec![2, 5]);
    let last: Vec<i64> = buckets[2].events.iter().map(|e| e.id).collect();
    assert_eq!(last, vec![1, 3]);
    let total: usize = buckets.iter().map(|b| b.events.len()).sum();
    assert_eq!(total, 5);
}

#[test]
fn bucketing_empty_input() {
    let buckets = day_contexts(Vec::new());
    assert!(buckets.is_empty());
}

// template helpers

#[test]
fn add_helper_renders_sum() {
    assert_eq!(render_add(2, 3), "5");
    assert_eq!(render_add(-4, 1), "-3");
}

#[test]
fn context_lookup_first_match_or_zero() {
    let ctx = vec![("page_id".to_string(), 4i64), ("page_id".to_string(), 9)];
    assert_eq!(lookup(&ctx, "page_id"), 4);
    assert_eq!(lookup(&ctx, "missing"), 0);
    assert_eq!(param_value(&ctx, &TemplateParam::Literal(11)), 11);
    assert_eq!(param_value(&ctx, &TemplateParam::Other), 0);
}

#[test]
fn inline_template_rendering() {
    let ctx = vec![("page_id".to_string(), 4i64)];
    let items = vec![
        TemplateItem::RawString("a".to_string()),
        TemplateItem::AddHelper(
            TemplateParam::Name("page_id".to_string()),
            TemplateParam::Literal(1),
        ),
        TemplateItem::OtherHelper,
    ];
    assert_eq!(render_template_items(&items, &ctx), "a\n5\n");
}

#[test]
fn select_count_by_context() {
    let p = Pagination {
        event_count: 1,
        location_count: 2,
        organizer_count: 3,
    };
    assert_eq!(select_count(&p, "locations"), 2);
    assert_eq!(select_count(&p, "organizers"), 3);
    assert_eq!(select_count(&p, "events"), 1);
    assert_eq!(select_count(&p, "anything"), 1);
}

#[test]
fn count_falls_back_to_page_size() {
    assert_eq!(count_or_default(Some(7)), 7);
    assert_eq!(count_or_default(None), 100);
}

#[test]
fn next_navigation_suppression() {
    assert_eq!(next_navigation_value("x".to_string(), 1, 200), "x");
    assert_eq!(next_navigation_value("x".to_string(), 2, 200), "");
}

#[test]
fn previous_navigation_fragment() {
    assert_eq!(previous_navigation_html("events/", 1), "");
    let html = previous_navigation_html("events/", 3);
    let expected = "<li class=\"page-item background-secondary\">\n                    <a class=\"page-link text-color background-secondary\" href=\"/events/2\"\n                       aria-label=\"Previous\">\n                        <span aria-hidden=\"true\">&laquo;</span>\n                        <span class=\"sr-only\">Previous</span>\n                    </a>\n                </li>\n                <li class=\"page-item background-secondary\"><a class=\"page-link text-color background-secondary\"\n                                                              href=\"/events/2\">2</a>\n                </li>";
    assert_eq!(html, expected);
}

#[test]
fn custom_time_format() {
    assert_eq!(
        time_custom_format("2024-03-05T06:07:08", "%d.%m.%Y"),
        Some("05.03.2024".to_string())
    );
    assert_eq!(
        time_custom_format("2024-03-05T06:07:08", "%H:%M"),
        Some("06:07".to_string())
    );
    assert_eq!(time_custom_format("2024-13-05T06:07:08", "%d"), None);
    assert_eq!(time_custom_format("2024-3-5T1:2:3", "%d"), None);
    assert_eq!(time_custom_format("2023-02-29T00:00:00", "%d"), None);
    assert_eq!(
        time_custom_format("2024-02-29T10:00:00", "%d"),
        Some("29".to_string())
    );
    // a lone percent is an invalid format item; the engine rejects it
    assert_eq!(time_custom_format("2024-03-05T06:07:08", "%"), None);
}

#[test]
fn datetime_literal_parsing() {
    assert_eq!(
        parse_datetime_str("2024-03-05T06:07:08"),
        Some(CivilTime {
            year: 2024,
            month: 3,
            day: 5,
            hour: 6,
            minute: 7,
            second: 8,
        })
    );
    assert_eq!(parse_datetime_str("2024-03-05 06:07:08"), None);
    assert_eq!(parse_datetime_str("2024-03-05T24:00:00"), None);
}

// backend replies

#[test]
fn response_data_prefers_data() {
    let r: Result<i64, BackendError> = response_data(Some(5), Some(vec!["e".to_string()]));
    assert_eq!(r.unwrap(), 5);
}

#[test]
fn response_data_classifies_missing_data() {
    let r: Result<i64, BackendError> =
        response_data(None, Some(vec!["a".to_string(), "b".to_string()]));
    match r {
        Err(BackendError::Backend(msgs)) => {
            assert_eq!(msgs, vec!["a".to_string(), "b".to_string()]);
            assert_eq!(
                BackendError::Backend(msgs).describe(),
                "backend returned errors: a | b"
            );
        }
        _ => panic!("expected a backend error"),
    }
    let r2: Result<i64, BackendError> = response_data(None, None);
    match r2 {
        Err(BackendError::Backend(msgs)) => assert!(msgs.is_empty()),
        _ => panic!("expected a backend error"),
    }
}

#[test]
fn join_messages_with_separator() {
    assert_eq!(join_messages(&vec![]), "");
    assert_eq!(join_messages(&vec!["a".to_string()]), "a");
    assert_eq!(
        join_messages(&vec!["a".to_string(), "b".to_string(), "c".to_string()]),
        "a | b | c"
    );
}

#[test]
fn error_descriptions() {
    assert_eq!(
        BackendError::Transport("boom".to_string()).describe(),
        "couldn't reach the backend: boom"
    );
    assert_eq!(
        BackendError::Malformed("bad json".to_string()).describe(),
        "couldn't decode the backend response: bad json"
    );
    assert_eq!(BackendError::NotFound.describe(), "not found");
}

// entity selection

#[test]
fn get_location_takes_last_and_maps_not_found() {
    let mut l1 = sample_location();
    l1.id = 1;
    let mut l2 = sample_location();
    l2.id = 2;
    let got = get_location(Ok(vec![l1, l2])).unwrap();
    assert_eq!(got.id, 2);
    assert!(matches!(
        get_location(Ok(Vec::new())),
        Err(BackendError::NotFound)
    ));
    assert!(matches!(
        get_location(Err(BackendError::Transport("x".to_string()))),
        Err(BackendError::Transport(_))
    ));
}

#[test]
fn get_event_and_get_tag_select_last() {
    let got = get_event(Ok(vec![sample_event(1, 0), sample_event(2, 0)])).unwrap();
    assert_eq!(got.id, 2);
    assert!(matches!(get_event(Ok(Vec::new())), Err(BackendError::NotFound)));
    let tag = Tag {
        id: 3,
        name: "t".to_string(),
        description: None,
        events: Vec::new(),
    };
    let got = get_tag(Ok(vec![tag])).unwrap();
    assert_eq!(got.id, 3);
    assert!(matches!(get_tag(Ok(Vec::new())), Err(BackendError::NotFound)));
}

#[test]
fn query_inputs() {
    let e = EventInput::by_id(4);
    assert_eq!(e.id, Some(4));
    assert!(e.location_id.is_none());
    let e = EventInput::for_location(9);
    assert_eq!(e.location_id, Some(9));
    let mut e = EventInput::none();
    e.time = Some(5);
    let (start, end) = e.time_strings();
    assert_eq!(start.as_deref(), Some("5"));
    assert_eq!(end, None);
    assert_eq!(TagInput::by_id(2).id, Some(2));
    assert_eq!(LocationInput::by_id(3).id, Some(3));
}

#[test]
fn location_helpers() {
    assert_eq!(location_path(7), "/location/7");
    let empty = Location::empty();
    assert_eq!(empty.id, 0);
    assert_eq!(empty.name, "");
    assert_eq!(empty.street_number, 0);
}

// ics export

#[test]
fn ics_document_exact_text() {
    let doc = build_ics_document(
        "u-id",
        "19700101T000000",
        "19700101T010000",
        "Name",
        "Desc",
        "Main St 5, 1010 Wien",
        "https://192.168.178.51:8000/event/7",
    );
    let expected = "BEGIN:VCALENDAR\r\nVERSION:2.0\r\nPRODID:ics-rs\r\nBEGIN:VEVENT\r\nUID:u-id\r\nDTSTAMP:19700101T000000\r\nCREATED:19700101T000000\r\nDTSTART:19700101T000000\r\nDTEND:19700101T010000\r\nSUMMARY:Name\r\nDESCRIPTION:Desc\r\nLOCATION:Main St 5, 1010 Wien\r\nSTATUS:NEEDS-ACTION\r\nCLASS:PUBLIC\r\nURL:https://192.168.178.51:8000/event/7\r\nEND:VEVENT\r\nEND:VCALENDAR\r\n";
    assert_eq!(doc, expected);
}

#[test]
fn ics_round_trip() {
    let doc = build_ics_document(
        "some-uid",
        "20240305T060708",
        "20240305T070708",
        "A summary",
        "A description, with a comma",
        "Main St 5, 1010 Wien",
        "https://192.168.178.51:8000/event/9",
    );
    let parsed = parse_ics(&doc).unwrap();
    assert_eq!(parsed.dtstart, "20240305T060708");
    assert_eq!(parsed.dtend, "20240305T070708");
    assert_eq!(parsed.summary, "A summary");
    assert_eq!(parsed.description, "A description, with a comma");
    assert_eq!(parsed.location, "Main St 5, 1010 Wien");
}

#[test]
fn parse_ics_requires_all_fields() {
    assert!(parse_ics("BEGIN:VCALENDAR\r\nEND:VCALENDAR\r\n").is_none());
}

#[test]
fn split_lines_at_crlf() {
    assert_eq!(split_lines("a\r\nb"), vec!["a", "b"]);
    assert_eq!(split_lines("a\r\nb\r\n"), vec!["a", "b", ""]);
    assert_eq!(split_lines("a\rb"), vec!["a\rb"]);
    assert_eq!(split_lines(""), vec![""]);
}

#[test]
fn stamp_formatting() {
    let c = CivilTime {
        year: 2024,
        month: 3,
        day: 5,
        hour: 6,
        minute: 7,
        second: 8,
    };
    assert_eq!(format_stamp(&c), "20240305T060708");
}

#[test]
fn location_property_text() {
    assert_eq!(sample_location().to_ics_location(), "Main St 5, 1010 Wien");
}

#[test]
fn event_url_text() {
    assert_eq!(
        event_url_string(9),
        "https://192.168.178.51:8000/event/9"
    );
}

#[test]
fn event_export_through_calendar_conversion() {
    // time zero is 1970-01-01T00:00:00; a wrong calendar conversion or a
    // wrongly formatted stamp would change these values
    let mut e = sample_event(7, 0);
    e.name = "New Year".to_string();
    let doc = e.get_ics().unwrap();
    let parsed = parse_ics(&doc).unwrap();
    assert_eq!(parsed.dtstart, "19700101T000000");
    assert_eq!(parsed.dtend, "19700101T010000");
    assert_eq!(parsed.summary, "New Year");
    assert_eq!(parsed.description, "A description");
    assert_eq!(parsed.location, "Main St 5, 1010 Wien");

    let e2 = sample_event(8, 1709618828); // 2024-03-05T06:07:08 UTC
    let doc2 = e2.get_ics().unwrap();
    let parsed2 = parse_ics(&doc2).unwrap();
    assert_eq!(parsed2.dtstart, "20240305T060708");
}

#[test]
fn event_export_uid_shape_and_freshness() {
    let e = sample_event(7, 0);
    let uid_of = |doc: &str| {
        let lines = split_lines(doc);
        lines
            .iter()
            .find(|l| l.starts_with("UID:"))
            .unwrap()
            .trim_start_matches("UID:")
            .to_string()
    };
    let uid1 = uid_of(&e.get_ics().unwrap());
    let uid2 = uid_of(&e.get_ics().unwrap());
    assert_eq!(uid1.len(), 36);
    assert!(uid1
        .chars()
        .all(|c| c.is_ascii_hexdigit() || c == '-'));
    assert_ne!(uid1, uid2);
}

#[test]
fn event_export_rejects_unrenderable_times() {
    let mut e = sample_event(7, 0);
    e.time = -1; // year 1969 renders fine
    assert!(e.get_ics().is_some());
    e.time = -70_000_000_000_000; // far outside any calendar year range
    assert!(e.get_ics().is_none());
    let mut e2 = sample_event(7, 0);
    e2.time_end = 260_000_000_000_000;
    assert!(e2.get_ics().is_none());
}
