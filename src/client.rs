use vstd::prelude::*;
use vstd::string::*;
use crate::datetime::{date_text, format_date, text_view, CalendarDate};

verus! {

/// Where every client's collections live.
pub const API_BASE: &'static str = "https://webapi.legistar.com/v1/";

/// The addresses of one client's collections (a client is a city or county,
/// such as `seattle`).
pub struct LegistarClient {
    events_url: String,
    body_types_url: String,
    matter_types_url: String,
    vote_types_url: String,
}

/// The address of the collection `path` of `client`.
pub open spec fn collection_url(client: Seq<char>, path: Seq<char>) -> Seq<char> {
    API_BASE@ + client + path
}

fn make_url(client: &str, path: &str) -> (r: String)
    ensures
        r@ == collection_url(client@, path@),
{
    let mut url = API_BASE.to_owned();
    url.append(client);
    url.append(path);
    url
}

impl LegistarClient {
    pub closed spec fn events_url_spec(&self) -> Seq<char> {
        self.events_url@
    }

    pub closed spec fn body_types_url_spec(&self) -> Seq<char> {
        self.body_types_url@
    }

    pub closed spec fn matter_types_url_spec(&self) -> Seq<char> {
        self.matter_types_url@
    }

    pub closed spec fn vote_types_url_spec(&self) -> Seq<char> {
        self.vote_types_url@
    }

    /// The client of the API for `client`.
    pub fn new(client: String) -> (r: Self)
        ensures
            r.events_url_spec() == collection_url(client@, "/events"@),
            r.body_types_url_spec() == collection_url(client@, "/bodytypes"@),
            r.matter_types_url_spec() == collection_url(client@, "/mattertypes"@),
            r.vote_types_url_spec() == collection_url(client@, "/votetypes"@),
    {
        LegistarClient {
            events_url: make_url(client.as_str(), "/events"),
            body_types_url: make_url(client.as_str(), "/bodytypes"),
            matter_types_url: make_url(client.as_str(), "/mattertypes"),
            vote_types_url: make_url(client.as_str(), "/votetypes"),
        }
    }

    pub fn events_url(&self) -> (r: &str)
        ensures
            r@ == self.events_url_spec(),
    {
        self.events_url.as_str()
    }

    pub fn body_types_url(&self) -> (r: &str)
        ensures
            r@ == self.body_types_url_spec(),
    {
        self.body_types_url.as_str()
    }

    pub fn matter_types_url(&self) -> (r: &str)
        ensures
            r@ == self.matter_types_url_spec(),
    {
        self.matter_types_url.as_str()
    }

    pub fn vote_types_url(&self) -> (r: &str)
        ensures
            r@ == self.vote_types_url_spec(),
    {
        self.vote_types_url.as_str()
    }
}

/// The name of the query parameter that narrows a collection.
pub const FILTER_PARAM: &'static str = "$filter";

/// The clause that keeps meetings on or after `begin`.
pub open spec fn lower_clause(begin: Seq<char>) -> Seq<char> {
    "EventDate ge datetime'"@ + begin + "'"@
}

/// The clause that keeps meetings before `end`.
pub open spec fn upper_clause(end: Seq<char>) -> Seq<char> {
    "EventDate lt datetime'"@ + end + "'"@
}

/// The filter expression for an inclusive lower and an exclusive upper bound,
/// each optional; with neither there is no filter.
pub open spec fn filter_text(begin: Option<Seq<char>>, end: Option<Seq<char>>) -> Option<Seq<char>> {
    match (begin, end) {
        (Some(b), Some(e)) => Some(lower_clause(b) + " and "@ + upper_clause(e)),
        (Some(b), None) => Some(lower_clause(b)),
        (None, Some(e)) => Some(upper_clause(e)),
        (None, None) => None,
    }
}

/// The characters of an optional text.
pub open spec fn str_view(s: Option<&str>) -> Option<Seq<char>> {
    match s {
        Some(t) => Some(t@),
        None => None,
    }
}

/// Builds the filter expression from bounds already written as dates.
pub fn filter_from_texts(begin: Option<&str>, end: Option<&str>) -> (r: Option<String>)
    ensures
        text_view(r) == filter_text(str_view(begin), str_view(end)),
{
    match (begin, end) {
        (Some(b), Some(e)) => {
            let mut f = "EventDate ge datetime'".to_owned();
            f.append(b);
            f.append("' and EventDate lt datetime'");
            f.append(e);
            f.append("'");
            assert(f@ =~= lower_clause(b@) + " and "@ + upper_clause(e@)) by {
                reveal_strlit("' and EventDate lt datetime'");
                reveal_strlit("'");
                reveal_strlit(" and ");
                reveal_strlit("EventDate lt datetime'");
            }
            Some(f)
        },
        (Some(b), None) => {
            let mut f = "EventDate ge datetime'".to_owned();
            f.append(b);
            f.append("'");
            Some(f)
        },
        (None, Some(e)) => {
            let mut f = "EventDate lt datetime'".to_owned();
            f.append(e);
            f.append("'");
            Some(f)
        },
        (None, None) => None,
    }
}

/// A bound that the time crate does not accept as a date.
#[derive(Clone, Copy, PartialEq, Eq, Structural, Debug)]
pub struct InvalidDate;

/// The filter expression for meetings on or after `begin` and before `end`;
/// a bound whose numbers make no date is refused.
pub fn event_filter(begin: Option<CalendarDate>, end: Option<CalendarDate>) -> (r: Result<
    Option<String>,
    InvalidDate,
>)
    ensures
        match (begin, end) {
            (Some(b), _) if date_text(b) is None => r is Err,
            (_, Some(e)) if date_text(e) is None => r is Err,
            _ => r matches Ok(f) && text_view(f) == filter_text(
                match begin {
                    Some(b) => date_text(b),
                    None => None,
                },
                match end {
                    Some(e) => date_text(e),
                    None => None,
                },
            ),
        },
{
    let b = match begin {
        Some(d) => match format_date(d) {
            Some(t) => Some(t),
            None => return Err(InvalidDate),
        },
        None => None,
    };
    let e = match end {
        Some(d) => match format_date(d) {
            Some(t) => Some(t),
            None => return Err(InvalidDate),
        },
        None => None,
    };
    let bs: Option<&str> = match &b {
        Some(t) => Some(t.as_str()),
        None => None,
    };
    let es: Option<&str> = match &e {
        Some(t) => Some(t.as_str()),
        None => None,
    };
    Ok(filter_from_texts(bs, es))
}

} // verus!
