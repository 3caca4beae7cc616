//! The body of an MKCALENDAR request (RFC 4791, section 5.3.1).
use vstd::prelude::*;

verus! {

/// `<c:supported-calendar-component-set>`, one `<c:comp name="X"/>` per
/// component, and the closing tag, one per line.
pub open spec fn components_xml(names: Seq<String>) -> Seq<char>
    decreases names.len(),
{
    if names.len() == 0 {
        "<c:supported-calendar-component-set>"@
    } else {
        components_xml(names.drop_last()) + "\n<c:comp name=\""@ + names.last()@ + "\"/>"@
    }
}

pub open spec fn description_xml(d: Option<String>) -> Seq<char> {
    match d {
        Some(x) => "<c:calendar-description>"@ + x@ + "</c:calendar-description>"@,
        None => Seq::empty(),
    }
}

pub open spec fn timezone_xml(t: Option<String>) -> Seq<char> {
    match t {
        Some(x) => "<c:calendar-timezone><![CDATA["@ + x@ + "]]></c:calendar-timezone>"@,
        None => Seq::empty(),
    }
}

pub open spec fn mkcalendar_xml(m: Mkcalendar) -> Seq<char> {
    "<?xml version=\"1.0\" encoding=\"utf-8\" ?>\n<c:mkcalendar xmlns:d=\"DAV:\" xmlns:c=\"urn:ietf:params:xml:ns:caldav\">\n    <d:set>\n        <d:prop>\n            <d:displayname>"@
        + m.name@ + "</d:displayname>\n            "@ + description_xml(m.description)
        + "\n            "@ + components_xml(m.supported_components@)
        + "\n</c:supported-calendar-component-set>"@ + "\n            "@ + timezone_xml(m.timezone)
        + "\n        </d:prop>\n    </d:set>\n</c:mkcalendar>\n"@
}

/// The properties of a calendar to create.
#[derive(Clone, Debug, Default, PartialEq, Eq)]
pub struct Mkcalendar {
    pub name: String,
    pub description: Option<String>,
    /// The iCalendar text of a `VCALENDAR` that holds the time zone.
    pub timezone: Option<String>,
    /// Component type names, such as `VEVENT`.
    pub supported_components: Vec<String>,
}

impl Mkcalendar {
    pub fn to_xml(&self) -> (r: String)
        ensures
            r@ == mkcalendar_xml(*self),
    {
        let mut s = String::from_str(
            "<?xml version=\"1.0\" encoding=\"utf-8\" ?>\n<c:mkcalendar xmlns:d=\"DAV:\" xmlns:c=\"urn:ietf:params:xml:ns:caldav\">\n    <d:set>\n        <d:prop>\n            <d:displayname>",
        );
        s.append(self.name.as_str());
        s.append("</d:displayname>\n            ");
        match &self.description {
            Some(d) => {
                s.append("<c:calendar-description>");
                s.append(d.as_str());
                s.append("</c:calendar-description>");
            },
            None => {},
        }
        s.append("\n            ");
        let mut comps = String::from_str("<c:supported-calendar-component-set>");
        let mut i: usize = 0;
        while i < self.supported_components.len()
            invariant
                i <= self.supported_components@.len(),
                comps@ == components_xml(self.supported_components@.subrange(0, i as int)),
            decreases self.supported_components@.len() - i,
        {
            proof {
                let t = self.supported_components@.subrange(0, i + 1);
                assert(t.drop_last() =~= self.supported_components@.subrange(0, i as int));
            }
            comps.append("\n<c:comp name=\"");
            comps.append(self.supported_components[i].as_str());
            comps.append("\"/>");
            i = i + 1;
        }
        proof {
            assert(self.supported_components@.subrange(0, i as int) =~= self.supported_components@);
        }
        s.append(comps.as_str());
        s.append("\n</c:supported-calendar-component-set>");
        s.append("\n            ");
        match &self.timezone {
            Some(t) => {
                s.append("<c:calendar-timezone><![CDATA[");
                s.append(t.as_str());
                s.append("]]></c:calendar-timezone>");
            },
            None => {},
        }
        s.append("\n        </d:prop>\n    </d:set>\n</c:mkcalendar>\n");
        s
    }
}

} // verus!
