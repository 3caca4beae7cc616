//! A calendar collection and the calendar-query bodies sent to it.
use vstd::prelude::*;
use crate::filter::{Filter, filter_xml};

verus! {

/// Everything of a calendar-query body before its filter.
pub open spec fn query_head() -> Seq<char> {
    "\n<c:calendar-query xmlns:d=\"DAV:\" xmlns:c=\"urn:ietf:params:xml:ns:caldav\">\n    <d:prop>\n        <d:resourcetype />\n    </d:prop>\n    "@
}

/// The body that lists the calendar's objects, of one component type when
/// `component` is set.
pub open spec fn component_query_body(component: Option<Seq<char>>) -> Seq<char> {
    query_head() + "<c:filter><c:comp-filter name=\"VCALENDAR\">"@ + match component {
        Some(n) => "<c:comp-filter name=\""@ + n + "\" />"@,
        None => Seq::empty(),
    } + "</c:comp-filter></c:filter>\n</c:calendar-query>\n"@
}

/// The body that searches the calendar with `f`.
pub open spec fn search_query_body(f: Filter) -> Seq<char> {
    query_head() + filter_xml(f) + "\n</c:calendar-query>"@
}

pub open spec fn opt_str_view(o: Option<&str>) -> Option<Seq<char>> {
    match o {
        Some(s) => Some(s@),
        None => None,
    }
}

/// A calendar collection on a CalDAV server.
#[derive(Clone, Debug, Default)]
pub struct Calendar {
    pub color: Option<String>,
    pub url: String,
}

impl Calendar {
    pub fn new(url: &str, color: Option<String>) -> (r: Calendar)
        ensures
            r.url@ == url@,
            r.color == color,
    {
        Calendar { color, url: url.to_owned() }
    }

    /// The calendar-query body for all objects (`None`) or for the objects
    /// of one component type, such as `VEVENT` or `VTODO`.
    pub fn request_body(component: Option<&str>) -> (r: String)
        ensures
            r@ == component_query_body(opt_str_view(component)),
    {
        let mut s = String::from_str(
            "\n<c:calendar-query xmlns:d=\"DAV:\" xmlns:c=\"urn:ietf:params:xml:ns:caldav\">\n    <d:prop>\n        <d:resourcetype />\n    </d:prop>\n    ",
        );
        s.append("<c:filter><c:comp-filter name=\"VCALENDAR\">");
        match component {
            Some(n) => {
                s.append("<c:comp-filter name=\"");
                s.append(n);
                s.append("\" />");
            },
            None => {},
        }
        s.append("</c:comp-filter></c:filter>\n</c:calendar-query>\n");
        s
    }

    /// The body that lists all objects of the calendar.
    pub fn objects_body() -> (r: String)
        ensures
            r@ == component_query_body(None),
    {
        Calendar::request_body(None)
    }

    /// The body that lists the calendar's events.
    pub fn events_body() -> (r: String)
        ensures
            r@ == component_query_body(Some("VEVENT"@)),
    {
        Calendar::request_body(Some("VEVENT"))
    }

    /// The body that lists the calendar's tasks.
    pub fn tasks_body() -> (r: String)
        ensures
            r@ == component_query_body(Some("VTODO"@)),
    {
        Calendar::request_body(Some("VTODO"))
    }

    /// The calendar-query body that searches with `filter`.
    pub fn search_body(filter: &Filter) -> (r: String)
        ensures
            r@ == search_query_body(*filter),
    {
        let mut s = String::from_str(
            "\n<c:calendar-query xmlns:d=\"DAV:\" xmlns:c=\"urn:ietf:params:xml:ns:caldav\">\n    <d:prop>\n        <d:resourcetype />\n    </d:prop>\n    ",
        );
        let f = filter.to_xml();
        s.append(f.as_str());
        s.append("\n</c:calendar-query>");
        s
    }
}

} // verus!
