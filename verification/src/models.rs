//! The catalog's entities, as one request materializes them, and the query
//! inputs that fetch them. Timestamps are Unix seconds.

use vstd::prelude::*;

use crate::backend::BackendError;
use crate::numfmt::{int_str, i64_to_string};

verus! {

/// A place that hosts events.
pub struct Location {
    pub id: i64,
    pub name: String,
    pub website: Option<String>,
    pub street: String,
    pub street_number: i32,
    pub city: String,
    pub postal_code: i32,
    pub country: String,
    pub building: Option<String>,
    pub maps_link: String,
}

/// Whoever runs an event.
pub struct Organizer {
    pub id: i64,
    pub name: String,
    pub website: Option<String>,
}

/// A tag as an event carries it, without the tagged events.
pub struct InnerEventTag {
    pub id: i64,
    pub name: String,
    pub description: Option<String>,
}

/// A single event, with its owning location embedded.
pub struct Event {
    pub id: i64,
    pub name: String,
    pub description: String,
    pub time: i64,
    pub time_end: i64,
    pub price: Option<i64>,
    pub currency: Option<String>,
    pub location: Location,
    pub organizer: Option<Organizer>,
    pub tags: Vec<InnerEventTag>,
}

/// A tag page: the tag and every event that carries it.
pub struct Tag {
    pub id: i64,
    pub name: String,
    pub description: Option<String>,
    pub events: Vec<Event>,
}

/// The fields of a location creation request.
pub struct LocationMutation {
    pub name: String,
    pub website: Option<String>,
    pub street: String,
    pub street_number: i64,
    pub city: String,
    pub postal_code: i64,
    pub country: String,
    pub building: Option<String>,
    pub maps_link: String,
}

/// An event query's filter: every field is optional.
pub struct EventInput {
    pub id: Option<i64>,
    pub name: Option<String>,
    pub description: Option<String>,
    pub time: Option<i64>,
    pub time_end: Option<i64>,
    pub price: Option<i64>,
    pub currency: Option<String>,
    pub location_id: Option<i64>,
    pub organizer_id: Option<i64>,
}

/// A tag query's filter.
pub struct TagInput {
    pub id: Option<i64>,
    pub name: Option<String>,
    pub description: Option<String>,
}

/// A location query's filter.
pub struct LocationInput {
    pub id: Option<i64>,
    pub name: Option<String>,
    pub website: Option<String>,
    pub street: Option<String>,
    pub street_number: Option<i32>,
    pub city: Option<String>,
    pub postal_code: Option<i32>,
    pub country: Option<String>,
    pub building: Option<String>,
    pub maps_link: Option<String>,
}

impl EventInput {
    /// A filter with every field empty.
    pub fn none() -> (r: Self)
        ensures
            r.id is None && r.name is None && r.description is None && r.time is None
                && r.time_end is None && r.price is None && r.currency is None && r.location_id
                is None && r.organizer_id is None,
    {
        EventInput {
            id: None,
            name: None,
            description: None,
            time: None,
            time_end: None,
            price: None,
            currency: None,
            location_id: None,
            organizer_id: None,
        }
    }

    /// The filter that selects one event by its id.
    pub fn by_id(id: i64) -> (r: Self)
        ensures
            r.id == Some(id),
            r.name is None && r.description is None && r.time is None && r.time_end is None
                && r.price is None && r.currency is None && r.location_id is None && r.organizer_id
                is None,
    {
        let mut input = Self::none();
        input.id = Some(id);
        input
    }

    /// The filter that selects the events of one location.
    pub fn for_location(location_id: i64) -> (r: Self)
        ensures
            r.location_id == Some(location_id),
            r.id is None && r.name is None && r.description is None && r.time is None && r.time_end
                is None && r.price is None && r.currency is None && r.organizer_id is None,
    {
        let mut input = Self::none();
        input.location_id = Some(location_id);
        input
    }

    /// The start and end timestamps as the decimal strings a query carries.
    pub fn time_strings(&self) -> (r: (Option<String>, Option<String>))
        ensures
            r.0 is Some <==> self.time is Some,
            r.1 is Some <==> self.time_end is Some,
            self.time matches Some(t) ==> (r.0 matches Some(s) && s@ == int_str(t as int)),
            self.time_end matches Some(t) ==> (r.1 matches Some(s) && s@ == int_str(t as int)),
    {
        let start = match &self.time {
            Some(t) => Some(i64_to_string(*t)),
            None => None,
        };
        let end = match &self.time_end {
            Some(t) => Some(i64_to_string(*t)),
            None => None,
        };
        (start, end)
    }
}

impl TagInput {
    /// The filter that selects one tag by its id.
    pub fn by_id(id: i64) -> (r: Self)
        ensures
            r.id == Some(id),
            r.name is None && r.description is None,
    {
        TagInput { id: Some(id), name: None, description: None }
    }
}

impl LocationInput {
    /// The filter that selects one location by its id.
    pub fn by_id(id: i64) -> (r: Self)
        ensures
            r.id == Some(id),
            r.name is None && r.website is None && r.street is None && r.street_number is None
                && r.city is None && r.postal_code is None && r.country is None && r.building
                is None && r.maps_link is None,
    {
        LocationInput {
            id: Some(id),
            name: None,
            website: None,
            street: None,
            street_number: None,
            city: None,
            postal_code: None,
            country: None,
            building: None,
            maps_link: None,
        }
    }
}

impl Location {
    /// The blank location that an empty edit form starts from.
    pub fn empty() -> (r: Self)
        ensures
            r.id == 0,
            r.name@ == Seq::<char>::empty(),
            r.website is None,
            r.street@ == Seq::<char>::empty(),
            r.street_number == 0,
            r.city@ == Seq::<char>::empty(),
            r.postal_code == 0,
            r.country@ == Seq::<char>::empty(),
            r.building is None,
            r.maps_link@ == Seq::<char>::empty(),
    {
        Location {
            id: 0,
            name: String::new(),
            website: None,
            street: String::new(),
            street_number: 0,
            city: String::new(),
            postal_code: 0,
            country: String::new(),
            building: None,
            maps_link: String::new(),
        }
    }
}

/// The route path of a location's page.
pub fn location_path(id: i64) -> (r: String)
    ensures
        r@ == "/location/"@ + int_str(id as int),
{
    let mut r = String::from_str("/location/");
    r.append(i64_to_string(id).as_str());
    r
}

/// Selects the single location of a fetched reply: the last returned one, a
/// not-found error when the reply was empty, and the fetch's own error
/// otherwise.
pub fn get_location(fetched: Result<Vec<Location>, BackendError>) -> (r: Result<
    Location,
    BackendError,
>)
    ensures
        fetched matches Ok(v) ==> ((v@.len() > 0 ==> (r matches Ok(l) && l == v@.last())) && (
        v@.len() == 0 ==> (r matches Err(e) && e is NotFound))),
        fetched matches Err(e) ==> r == Result::<Location, BackendError>::Err(e),
{
    match fetched {
        Ok(mut v) => match v.pop() {
            Some(l) => Ok(l),
            None => Err(BackendError::NotFound),
        },
        Err(e) => Err(e),
    }
}

/// Selects the single event of a fetched reply, as `get_location` does for
/// locations.
pub fn get_event(fetched: Result<Vec<Event>, BackendError>) -> (r: Result<Event, BackendError>)
    ensures
        fetched matches Ok(v) ==> ((v@.len() > 0 ==> (r matches Ok(l) && l == v@.last())) && (
        v@.len() == 0 ==> (r matches Err(e) && e is NotFound))),
        fetched matches Err(e) ==> r == Result::<Event, BackendError>::Err(e),
{
    match fetched {
        Ok(mut v) => match v.pop() {
            Some(l) => Ok(l),
            None => Err(BackendError::NotFound),
        },
        Err(e) => Err(e),
    }
}

/// Selects the single tag of a fetched reply, as `get_location` does for
/// locations.
pub fn get_tag(fetched: Result<Vec<Tag>, BackendError>) -> (r: Result<Tag, BackendError>)
    ensures
        fetched matches Ok(v) ==> ((v@.len() > 0 ==> (r matches Ok(l) && l == v@.last())) && (
        v@.len() == 0 ==> (r matches Err(e) && e is NotFound))),
        fetched matches Err(e) ==> r == Result::<Tag, BackendError>::Err(e),
{
    match fetched {
        Ok(mut v) => match v.pop() {
            Some(l) => Ok(l),
            None => Err(BackendError::NotFound),
        },
        Err(e) => Err(e),
    }
}

} // verus!
