use kaldav::{Calendar, CompFilter, Filter};

const HEAD: &str = "\n<c:calendar-query xmlns:d=\"DAV:\" xmlns:c=\"urn:ietf:params:xml:ns:caldav\">\n    <d:prop>\n        <d:resourcetype />\n    </d:prop>\n    ";

#[test]
fn events() {
    assert_eq!(
        Calendar::events_body(),
        format!("{HEAD}<c:filter><c:comp-filter name=\"VCALENDAR\"><c:comp-filter name=\"VEVENT\" /></c:comp-filter></c:filter>\n</c:calendar-query>\n")
    );
}

#[test]
fn tasks_and_objects_bodies() {
    assert_eq!(
        Calendar::tasks_body(),
        format!("{HEAD}<c:filter><c:comp-filter name=\"VCALENDAR\"><c:comp-filter name=\"VTODO\" /></c:comp-filter></c:filter>\n</c:calendar-query>\n")
    );
    assert_eq!(
        Calendar::objects_body(),
        format!("{HEAD}<c:filter><c:comp-filter name=\"VCALENDAR\"></c:comp-filter></c:filter>\n</c:calendar-query>\n")
    );
}

#[test]
fn search_body_embeds_filter() {
    let f = Filter::new().append(CompFilter::new("VCALENDAR"));
    assert_eq!(
        Calendar::search_body(&f),
        format!("{HEAD}<c:filter><c:comp-filter name=\"VCALENDAR\" /></c:filter>\n</c:calendar-query>")
    );
}

#[test]
fn calendar() {
    let c = Calendar::new("http://localhost/calendars/home/", Some("#ffd4a5".to_string()));
    assert_eq!(c.color.as_deref(), Some("#ffd4a5"));
    assert_eq!(c.url, "http://localhost/calendars/home/");
}

#[test]
fn mkcalendar_body() {
    let m = kaldav::Mkcalendar {
        name: "Lisa's Events".to_string(),
        description: Some("Calendar restricted to events.".to_string()),
        timezone: Some("BEGIN:VCALENDAR\r\nEND:VCALENDAR\r\n".to_string()),
        supported_components: vec!["VEVENT".to_string(), "VTODO".to_string()],
    };
    assert_eq!(
        m.to_xml(),
        "<?xml version=\"1.0\" encoding=\"utf-8\" ?>\n<c:mkcalendar xmlns:d=\"DAV:\" xmlns:c=\"urn:ietf:params:xml:ns:caldav\">\n    <d:set>\n        <d:prop>\n            <d:displayname>Lisa's Events</d:displayname>\n            <c:calendar-description>Calendar restricted to events.</c:calendar-description>\n            <c:supported-calendar-component-set>\n<c:comp name=\"VEVENT\"/>\n<c:comp name=\"VTODO\"/>\n</c:supported-calendar-component-set>\n            <c:calendar-timezone><![CDATA[BEGIN:VCALENDAR\r\nEND:VCALENDAR\r\n]]></c:calendar-timezone>\n        </d:prop>\n    </d:set>\n</c:mkcalendar>\n"
    );
    let bare = kaldav::Mkcalendar {
        name: "x".to_string(),
        ..Default::default()
    };
    assert_eq!(
        bare.to_xml(),
        "<?xml version=\"1.0\" encoding=\"utf-8\" ?>\n<c:mkcalendar xmlns:d=\"DAV:\" xmlns:c=\"urn:ietf:params:xml:ns:caldav\">\n    <d:set>\n        <d:prop>\n            <d:displayname>x</d:displayname>\n            \n            <c:supported-calendar-component-set>\n</c:supported-calendar-component-set>\n            \n        </d:prop>\n    </d:set>\n</c:mkcalendar>\n"
    );
}
