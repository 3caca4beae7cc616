use kaldav::dsl::expand;
use kaldav::interpret::build;
use kaldav::{CompFilter, Filter, ParamFilter, PropFilter, TextMatch, TimeRange, UtcDateTime};

#[test]
fn comp_filter() {
    let src = "CompFilter::new(\"VEVENT\")";
    assert_eq!(
        expand(src).unwrap(),
        "{ use kaldav::filter::*; use kaldav::time::*; Filter::new().append(CompFilter::new(\"VEVENT\")) }"
    );
    let filter = build(src).unwrap();
    let manual = Filter::new().append(CompFilter::new("VEVENT"));
    assert_eq!(filter.to_xml(), manual.to_xml());

    assert_eq!(
        filter.to_xml(),
        "<c:filter><c:comp-filter name=\"VEVENT\" /></c:filter>",
    );
}

#[test]
fn nested() {
    let src = "CompFilter::new(\"VCALENDAR\") {\n    CompFilter::new(\"VEVENT\") {\n    }\n}";
    assert_eq!(
        expand(src).unwrap(),
        "{ use kaldav::filter::*; use kaldav::time::*; Filter::new().append(CompFilter::new(\"VCALENDAR\").append(CompFilter::new(\"VEVENT\"))) }"
    );
    let filter = build(src).unwrap();
    let manual = Filter::new()
        .append(CompFilter::new("VCALENDAR").append(CompFilter::new("VEVENT")));
    assert_eq!(filter.to_xml(), manual.to_xml());

    assert_eq!(
        filter.to_xml(),
        "<c:filter><c:comp-filter name=\"VCALENDAR\"><c:comp-filter name=\"VEVENT\" /></c:comp-filter></c:filter>",
    );
}

#[test]
fn text_match() {
    let src = "CompFilter::new(\"VEVENT\") {\n    prop_filter: PropFilter::new(\"URL\") {\n        text_match: TextMatch::new(\"https://example.org\"),\n    }\n}";
    assert_eq!(
        expand(src).unwrap(),
        "{ use kaldav::filter::*; use kaldav::time::*; Filter::new().append(CompFilter::new(\"VEVENT\").prop_filter(PropFilter::new(\"URL\").text_match(TextMatch::new(\"https://example.org\")))) }"
    );
    let filter = build(src).unwrap();
    let manual = Filter::new().append(
        CompFilter::new("VEVENT").prop_filter(
            PropFilter::new("URL").text_match(TextMatch::new("https://example.org")),
        ),
    );
    assert_eq!(filter.to_xml(), manual.to_xml());

    assert_eq!(
        filter.to_xml(),
        "<c:filter><c:comp-filter name=\"VEVENT\"><c:prop-filter name=\"URL\"><c:text-match><![CDATA[https://example.org]]></c:text-match></c:prop-filter></c:comp-filter></c:filter>",
    );

    let filter = TextMatch::new("https://example.org")
        .collation("i;octet")
        .negate_condition(true);

    assert_eq!(
        filter.to_xml(),
        "<c:text-match collation=\"i;octet\" negate-condition=\"yes\"><![CDATA[https://example.org]]></c:text-match>",
    );
}

#[test]
fn default() {
    let src = "CompFilter::new(\"VEVENT\") {\n    prop_filter: PropFilter::new(\"URL\") {\n        text_match: TextMatch::default() {\n            text: \"https://example.org\",\n        }\n    }\n}";
    assert_eq!(
        expand(src).unwrap(),
        "{ use kaldav::filter::*; use kaldav::time::*; Filter::new().append(CompFilter::new(\"VEVENT\").prop_filter(PropFilter::new(\"URL\").text_match(TextMatch::default().text(\"https://example.org\")))) }"
    );
    let filter = build(src).unwrap();
    let manual = Filter::new().append(
        CompFilter::new("VEVENT").prop_filter(
            PropFilter::new("URL").text_match(TextMatch::default().text("https://example.org")),
        ),
    );
    assert_eq!(filter.to_xml(), manual.to_xml());

    assert_eq!(
        filter.to_xml(),
        "<c:filter><c:comp-filter name=\"VEVENT\"><c:prop-filter name=\"URL\"><c:text-match><![CDATA[https://example.org]]></c:text-match></c:prop-filter></c:comp-filter></c:filter>",
    );
}

#[test]
fn is_not_defined() {
    let src = "CompFilter::new(\"VCALENDAR\") {\n    CompFilter::new(\"VTODO\") {\n        prop_filter: PropFilter::new(\"COMPLETED\") {\n            is_not_defined: true,\n        }\n    }\n}";
    assert_eq!(
        expand(src).unwrap(),
        "{ use kaldav::filter::*; use kaldav::time::*; Filter::new().append(CompFilter::new(\"VCALENDAR\").append(CompFilter::new(\"VTODO\").prop_filter(PropFilter::new(\"COMPLETED\").is_not_defined(true)))) }"
    );
    let filter = build(src).unwrap();
    let manual = Filter::new().append(
        CompFilter::new("VCALENDAR").append(
            CompFilter::new("VTODO")
                .prop_filter(PropFilter::new("COMPLETED").is_not_defined(true)),
        ),
    );
    assert_eq!(filter.to_xml(), manual.to_xml());

    assert_eq!(
        filter.to_xml(),
        "<c:filter><c:comp-filter name=\"VCALENDAR\"><c:comp-filter name=\"VTODO\"><c:prop-filter name=\"COMPLETED\"><c:is-not-defined /></c:prop-filter></c:comp-filter></c:comp-filter></c:filter>",
    );
}

#[test]
fn time_range() {
    let src = "CompFilter::new(\"VCALENDAR\") {\n    CompFilter::new(\"VEVENT\") {\n        time_range: TimeRange {\n            start: chrono::Utc.with_ymd_and_hms(2006, 1, 4, 0, 0, 0).earliest(),\n            end: None,\n        }\n    }\n}";
    assert_eq!(
        expand(src).unwrap(),
        "{ use kaldav::filter::*; use kaldav::time::*; Filter::new().append(CompFilter::new(\"VCALENDAR\").append(CompFilter::new(\"VEVENT\").time_range(TimeRange { start:chrono::Utc.with_ymd_and_hms(2006,1,4,0,0,0).earliest(),end:None, }))) }"
    );
    let filter = Filter::new().append(
        CompFilter::new("VCALENDAR").append(CompFilter::new("VEVENT").time_range(TimeRange {
            start: UtcDateTime::new(2006, 1, 4, 0, 0, 0),
            end: None,
        })),
    );

    assert_eq!(
        filter.to_xml(),
        "<c:filter><c:comp-filter name=\"VCALENDAR\"><c:comp-filter name=\"VEVENT\"><c:time-range start=\"20060104T000000Z\" end=\"+infinity\" /></c:comp-filter></c:comp-filter></c:filter>",
    );
}

#[test]
fn param_filter_renders_params_in_order() {
    let p = ParamFilter::new("PARTSTAT")
        .append(TextMatch::new("ACCEPTED"))
        .append(TextMatch::new("TENTATIVE").negate_condition(true));
    assert_eq!(
        p.to_xml(),
        "<c:param-filter name=\"PARTSTAT\"><c:text-match><![CDATA[ACCEPTED]]></c:text-match><c:text-match negate-condition=\"yes\"><![CDATA[TENTATIVE]]></c:text-match></c:param-filter>"
    );
    let empty = ParamFilter::new("X");
    assert_eq!(empty.to_xml(), "<c:param-filter name=\"X\"></c:param-filter>");
}

#[test]
fn prop_filter_children_in_append_order() {
    let p = PropFilter::new("ATTENDEE")
        .append(ParamFilter::new("PARTSTAT").append(TextMatch::new("ACCEPTED")))
        .text_match(TextMatch::new("mailto:a@example.org").collation("i;ascii-casemap"))
        .time_range(TimeRange::new(None, None));
    assert_eq!(
        p.to_xml(),
        "<c:prop-filter name=\"ATTENDEE\"><c:param-filter name=\"PARTSTAT\"><c:text-match><![CDATA[ACCEPTED]]></c:text-match></c:param-filter><c:text-match collation=\"i;ascii-casemap\"><![CDATA[mailto:a@example.org]]></c:text-match><c:time-range start=\"-infinity\" end=\"+infinity\" /></c:prop-filter>"
    );
}

#[test]
fn comp_filter_siblings_and_depth() {
    let c = CompFilter::new("VCALENDAR").append(
        CompFilter::new("VEVENT")
            .prop_filter(PropFilter::new("SUMMARY"))
            .append(CompFilter::new("VALARM")),
    );
    assert_eq!(
        c.to_xml(),
        "<c:comp-filter name=\"VCALENDAR\"><c:comp-filter name=\"VEVENT\"><c:prop-filter name=\"SUMMARY\" /><c:comp-filter name=\"VALARM\" /></c:comp-filter></c:comp-filter>"
    );
}

#[test]
fn empty_filters_self_close() {
    assert_eq!(CompFilter::new("VTODO").to_xml(), "<c:comp-filter name=\"VTODO\" />");
    assert_eq!(PropFilter::new("UID").to_xml(), "<c:prop-filter name=\"UID\" />");
    assert_eq!(
        CompFilter::new("VTODO").is_not_defined(true).is_not_defined(false).to_xml(),
        "<c:comp-filter name=\"VTODO\" />"
    );
    assert_eq!(Filter::new().to_xml(), "<c:filter></c:filter>");
}

#[test]
fn marker_and_children_both_render() {
    let c = CompFilter::new("VEVENT")
        .is_not_defined(true)
        .time_range(TimeRange::new(None, UtcDateTime::new(2024, 2, 29, 23, 59, 59)));
    assert_eq!(
        c.to_xml(),
        "<c:comp-filter name=\"VEVENT\"><c:is-not-defined /><c:time-range start=\"-infinity\" end=\"20240229T235959Z\" /></c:comp-filter>"
    );
}

#[test]
fn marked_prop_filter_never_self_closes() {
    assert_eq!(
        PropFilter::new("N").is_not_defined(true).to_xml(),
        "<c:prop-filter name=\"N\"><c:is-not-defined /></c:prop-filter>"
    );
}

#[test]
fn time_range_sentinels_and_formats() {
    assert_eq!(
        TimeRange::new(None, None).to_xml(),
        "<c:time-range start=\"-infinity\" end=\"+infinity\" />"
    );
    let start = UtcDateTime::new(2006, 1, 4, 0, 0, 0);
    assert_eq!(
        TimeRange::new(start, None).to_xml(),
        "<c:time-range start=\"20060104T000000Z\" end=\"+infinity\" />"
    );
    let r = TimeRange::new(UtcDateTime::new(5, 3, 7, 8, 9, 1), UtcDateTime::new(9999, 12, 31, 23, 59, 59));
    assert_eq!(
        r.to_xml(),
        "<c:time-range start=\"00050307T080901Z\" end=\"99991231T235959Z\" />"
    );
}

#[test]
fn utc_date_time_validation() {
    assert!(UtcDateTime::new(2023, 2, 29, 0, 0, 0).is_none());
    assert!(UtcDateTime::new(2024, 2, 29, 0, 0, 0).is_some());
    assert!(UtcDateTime::new(1900, 2, 29, 0, 0, 0).is_none());
    assert!(UtcDateTime::new(2000, 2, 29, 0, 0, 0).is_some());
    assert!(UtcDateTime::new(2024, 4, 31, 0, 0, 0).is_none());
    assert!(UtcDateTime::new(2024, 13, 1, 0, 0, 0).is_none());
    assert!(UtcDateTime::new(2024, 1, 0, 0, 0, 0).is_none());
    assert!(UtcDateTime::new(2024, 1, 1, 24, 0, 0).is_none());
    assert!(UtcDateTime::new(2024, 1, 1, 0, 60, 0).is_none());
    assert!(UtcDateTime::new(2024, 1, 1, 0, 0, 60).is_none());
    assert!(UtcDateTime::new(10000, 1, 1, 0, 0, 0).is_none());
    assert!(UtcDateTime::new(-1, 1, 1, 0, 0, 0).is_none());
    let d = UtcDateTime::new(2024, 7, 15, 13, 5, 9).unwrap();
    assert_eq!(
        (d.year(), d.month(), d.day(), d.hour(), d.minute(), d.second()),
        (2024, 7, 15, 13, 5, 9)
    );
}

#[test]
fn text_match_attributes() {
    assert_eq!(
        TextMatch::new("x").to_xml(),
        "<c:text-match><![CDATA[x]]></c:text-match>"
    );
    assert_eq!(
        TextMatch::new("x").negate_condition(true).to_xml(),
        "<c:text-match negate-condition=\"yes\"><![CDATA[x]]></c:text-match>"
    );
    assert_eq!(
        TextMatch::new("x").text("y").collation("i;octet").to_xml(),
        "<c:text-match collation=\"i;octet\"><![CDATA[y]]></c:text-match>"
    );
    assert_eq!(
        TextMatch::new("").to_xml(),
        "<c:text-match><![CDATA[]]></c:text-match>"
    );
}
