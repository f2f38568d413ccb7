//! The containers of a relay, as the compose tool lists them.
use crate::json::{
    json_document, members_are_found_by_their_key, parse_json, says, text_member, Json,
};
use crate::text::{
    lemma_views_push, lines, opt_to_owned, opt_view, text_lines, text_trim, trim, views,
};
use vstd::prelude::*;

verus! {

/// One container.
#[derive(Debug, PartialEq, Eq)]
pub struct ContainerStatus<T = String> {
    pub service: T,
    pub state: T,
    pub image: Option<T>,
}

/// The view of a [`ContainerStatus`].
pub type ContainerView = ContainerStatus<Seq<char>>;

impl View for ContainerStatus {
    type V = ContainerStatus<Seq<char>>;

    open spec fn view(&self) -> ContainerStatus<Seq<char>> {
        ContainerStatus {
            service: self.service@,
            state: self.state@,
            image: opt_view(self.image),
        }
    }
}

impl Clone for ContainerStatus {
    fn clone(&self) -> (r: ContainerStatus)
        ensures
            r == *self,
    {
        ContainerStatus {
            service: self.service.clone(),
            state: self.state.clone(),
            image: self.image.clone(),
        }
    }
}

/// The container that a JSON object describes: it names its service; where it does not name its
/// state, that is unknown.
pub open spec fn container_in(value: Json) -> Option<ContainerView> {
    match text_member(value, "Service"@) {
        None => None,
        Some(service) => Some(
            ContainerStatus {
                service,
                state: match text_member(value, "State"@) {
                    Some(state) => state,
                    None => "unknown"@,
                },
                image: text_member(value, "Image"@),
            },
        ),
    }
}

/// Reads one container.
pub fn row_from_value(value: &Json) -> (r: Option<ContainerStatus>)
    ensures
        match r {
            Some(row) => container_in(*value) == Some(row@),
            None => container_in(*value) is None,
        },
{
    match value.text_at("Service") {
        None => None,
        Some(service) => {
            let state = match value.text_at("State") {
                Some(s) => s.to_owned(),
                None => "unknown".to_owned(),
            };
            let image = opt_to_owned(value.text_at("Image"));
            Some(ContainerStatus { service: service.to_owned(), state, image })
        },
    }
}

/// The containers among the values of a list.
pub open spec fn containers_in(values: Seq<Json>) -> Seq<ContainerView>
    decreases values.len(),
{
    if values.len() == 0 {
        seq![]
    } else {
        let before = containers_in(values.drop_last());
        match container_in(values.last()) {
            Some(row) => before.push(row),
            None => before,
        }
    }
}

/// The containers among documents, some of which may not have been read.
pub open spec fn containers_read(documents: Seq<Option<Json>>) -> Seq<ContainerView>
    decreases documents.len(),
{
    if documents.len() == 0 {
        seq![]
    } else {
        let before = containers_read(documents.drop_last());
        match documents.last() {
            Some(value) => match container_in(value) {
                Some(row) => before.push(row),
                None => before,
            },
            None => before,
        }
    }
}

/// The containers of a listing: of the array that it is as a whole, or else of its lines.
pub open spec fn containers_listed(whole: Option<Json>, each_line: Seq<Option<Json>>) -> Seq<
    ContainerView,
> {
    match whole {
        Some(Json::Array(items)) => containers_in(items@),
        _ => containers_read(each_line),
    }
}

/// Reads the containers of a listing whose JSON was parsed as a whole and line by line.
pub fn container_rows(whole: &Option<Json>, each_line: &Vec<Option<Json>>) -> (out: Vec<
    ContainerStatus,
>)
    ensures
        views(out@) == containers_listed(*whole, each_line@),
{
    let mut out: Vec<ContainerStatus> = Vec::new();
    let mut i: usize = 0;
    match whole {
        Some(Json::Array(items)) => {
            assert(views(out@) =~= containers_in(items@.take(0)));
            while i < items.len()
                invariant
                    i <= items@.len(),
                    views(out@) == containers_in(items@.take(i as int)),
                decreases items@.len() - i,
            {
                let ghost before = out@;
                assert(items@.take(i + 1).drop_last() =~= items@.take(i as int));
                match row_from_value(&items[i]) {
                    Some(row) => {
                        out.push(row);
                        proof {
                            lemma_views_push(before, row);
                        }
                    },
                    None => {},
                }
                i += 1;
            }
            assert(items@.take(i as int) =~= items@);
            out
        },
        _ => {
            assert(views(out@) =~= containers_read(each_line@.take(0)));
            while i < each_line.len()
                invariant
                    i <= each_line@.len(),
                    views(out@) == containers_read(each_line@.take(i as int)),
                decreases each_line@.len() - i,
            {
                let ghost before = out@;
                assert(each_line@.take(i + 1).drop_last() =~= each_line@.take(i as int));
                match &each_line[i] {
                    Some(value) => match row_from_value(value) {
                        Some(row) => {
                            out.push(row);
                            proof {
                                lemma_views_push(before, row);
                            }
                        },
                        None => {},
                    },
                    None => {},
                }
                i += 1;
            }
            assert(each_line@.take(i as int) =~= each_line@);
            out
        },
    }
}

/// The documents that lines write.
pub open spec fn documents_of(rows: Seq<Seq<char>>) -> Seq<Option<Json>> {
    Seq::new(rows.len(), |i: int| json_document(rows[i]))
}

/// The containers that the compose tool's output lists, which is one JSON array or one JSON object
/// on each line.
pub open spec fn containers_of(raw: Seq<char>) -> Seq<ContainerView> {
    if trim(raw).len() == 0 {
        seq![]
    } else {
        containers_listed(json_document(trim(raw)), documents_of(lines(trim(raw))))
    }
}

/// Reads the containers that the compose tool's output lists.
pub fn parse_compose_ps_json(raw: &str) -> (out: Vec<ContainerStatus>)
    ensures
        views(out@) == containers_of(raw@),
{
    let trimmed = text_trim(raw);
    if trimmed.as_str().is_empty() {
        let out: Vec<ContainerStatus> = Vec::new();
        assert(views(out@) =~= Seq::empty());
        return out;
    }
    let whole = parse_json(trimmed.as_str());
    let mut each_line: Vec<Option<Json>> = Vec::new();
    if !matches!(whole, Some(Json::Array(_))) {
        let rows = text_lines(trimmed.as_str());
        let mut i: usize = 0;
        while i < rows.len()
            invariant
                i <= rows@.len(),
                each_line@ == documents_of(views(rows@)).take(i as int),
            decreases rows@.len() - i,
        {
            each_line.push(parse_json(rows[i].as_str()));
            i += 1;
            assert(documents_of(views(rows@)).take(i as int) =~= documents_of(views(rows@)).take(
                i - 1,
            ).push(json_document(rows@[i - 1]@)));
        }
        assert(documents_of(views(rows@)).take(i as int) =~= documents_of(views(rows@)));
    }
    container_rows(&whole, &each_line)
}

/// A row of a listing is a container exactly where it is an object with a text under `Service`.
/// The container then has that service; the state and the image that the row names under `State`
/// and `Image`; an unknown state where it names none, and no image where it names none.
pub proof fn rows_say_what_their_object_says(members: Vec<(String, Json)>, text: Seq<char>)
    ensures
        ({
            let row = container_in(Json::Object(members));
            let container = row->0;
            &&& says(members@, "Service"@, text) ==> row is Some && container.service == text
            &&& row is Some ==> says(members@, "Service"@, container.service)
            &&& row is Some && says(members@, "State"@, text) ==> container.state == text
            &&& row is Some ==> says(members@, "State"@, container.state) || (container.state
                == "unknown"@ && forall|t: Seq<char>| !says(members@, "State"@, t))
            &&& row is Some && says(members@, "Image"@, text) ==> container.image == Some(text)
            &&& row is Some ==> match container.image {
                Some(image) => says(members@, "Image"@, image),
                None => forall|t: Seq<char>| !says(members@, "Image"@, t),
            }
        }),
{
    let value = Json::Object(members);
    members_are_found_by_their_key(value, "Service"@);
    members_are_found_by_their_key(value, "State"@);
    members_are_found_by_their_key(value, "Image"@);
    lemma_says_one(members@, "Service"@);
    lemma_says_one(members@, "State"@);
    lemma_says_one(members@, "Image"@);
}

/// The row that is read from an object says what the object says, whatever other members it has.
pub proof fn read_rows_say_what_their_object_says(
    members: Vec<(String, Json)>,
    r: Option<ContainerStatus>,
)
    requires
        call_ensures(row_from_value, (&Json::Object(members),), r),
    ensures
        match r {
            None => forall|t: Seq<char>| !says(members@, "Service"@, t),
            Some(row) => {
                &&& says(members@, "Service"@, row.service@)
                &&& says(members@, "State"@, row.state@) || (row.state@ == "unknown"@ && forall|
                    t: Seq<char>,
                | !says(members@, "State"@, t))
                &&& match row.image {
                    Some(image) => says(members@, "Image"@, image@),
                    None => forall|t: Seq<char>| !says(members@, "Image"@, t),
                }
            },
        },
{
    rows_say_what_their_object_says(members, ""@);
    if r is None {
        assert forall|t: Seq<char>| !says(members@, "Service"@, t) by {
            rows_say_what_their_object_says(members, t);
        }
    }
}

/// What is no object is no container.
pub proof fn only_objects_are_containers(value: Json)
    requires
        !(value is Object),
    ensures
        container_in(value) is None,
{
}

proof fn lemma_says_one(members: Seq<(String, Json)>, key: Seq<char>)
    ensures
        forall|a: Seq<char>, b: Seq<char>|
            says(members, key, a) && says(members, key, b) ==> a == b,
{
    assert forall|a: Seq<char>, b: Seq<char>|
        says(members, key, a) && says(members, key, b) implies a == b by {
        let i = choose|i: int|
            {
                &&& 0 <= i < members.len()
                &&& (#[trigger] members[i]).0@ == key
                &&& members[i].1 matches Json::Text(s) && s@ == a
                &&& forall|j: int| 0 <= j < i ==> (#[trigger] members[j]).0@ != key
            };
        let k = choose|k: int|
            {
                &&& 0 <= k < members.len()
                &&& (#[trigger] members[k]).0@ == key
                &&& members[k].1 matches Json::Text(s) && s@ == b
                &&& forall|j: int| 0 <= j < k ==> (#[trigger] members[j]).0@ != key
            };
        assert(members[i].0@ == key && members[k].0@ == key);
        assert(i == k);
    }
}

/// Whether containers are those of some documents, each of the document at the same place of a list
/// of ascending numbers, and no document that is a container's is left out.
pub open spec fn rows_of(
    documents: Seq<Option<Json>>,
    containers: Seq<ContainerView>,
    at: Seq<int>,
) -> bool {
    &&& at.len() == containers.len()
    &&& forall|k: int|
        0 <= k < at.len() ==> {
            &&& 0 <= #[trigger] at[k] < documents.len()
            &&& documents[at[k]] is Some
            &&& container_in(documents[at[k]]->0) == Some(containers[k])
        }
    &&& forall|k: int, l: int| 0 <= k < l < at.len() ==> #[trigger] at[k] < #[trigger] at[l]
    &&& forall|i: int|
        0 <= i < documents.len() && (#[trigger] documents[i]) is Some && container_in(
            documents[i]->0,
        ) is Some ==> at.contains(i)
}

proof fn lemma_containers_read(documents: Seq<Option<Json>>) -> (at: Seq<int>)
    ensures
        rows_of(documents, containers_read(documents), at),
    decreases documents.len(),
{
    if documents.len() == 0 {
        seq![]
    } else {
        let rest = documents.drop_last();
        let last = documents.len() - 1;
        let at = lemma_containers_read(rest);
        assert forall|i: int| 0 <= i < rest.len() implies rest[i] == documents[i] by {}
        assert(documents[last] == documents.last());
        let before = containers_read(rest);
        let now = containers_read(documents);
        if documents.last() is Some && container_in(documents.last()->0) is Some {
            let more = at.push(last);
            assert forall|k: int| 0 <= k < more.len() implies {
                &&& 0 <= #[trigger] more[k] < documents.len()
                &&& documents[more[k]] is Some
                &&& container_in(documents[more[k]]->0) == Some(now[k])
            } by {
                if k < at.len() {
                    assert(more[k] == at[k]);
                    assert(rest[at[k]] == documents[at[k]]);
                    assert(now[k] == before[k]);
                }
            }
            assert forall|i: int|
                0 <= i < documents.len() && (#[trigger] documents[i]) is Some && container_in(
                    documents[i]->0,
                ) is Some implies more.contains(i) by {
                if i < last {
                    assert(rest[i] == documents[i]);
                    let k = choose|k: int| 0 <= k < at.len() && at[k] == i;
                    assert(more[k] == i);
                } else {
                    assert(more[at.len() as int] == i);
                }
            }
            more
        } else {
            assert forall|k: int| 0 <= k < at.len() implies {
                &&& 0 <= #[trigger] at[k] < documents.len()
                &&& documents[at[k]] is Some
                &&& container_in(documents[at[k]]->0) == Some(now[k])
            } by {
                assert(rest[at[k]] == documents[at[k]]);
            }
            assert forall|i: int|
                0 <= i < documents.len() && (#[trigger] documents[i]) is Some && container_in(
                    documents[i]->0,
                ) is Some implies at.contains(i) by {
                assert(rest[i] == documents[i]);
            }
            at
        }
    }
}

proof fn lemma_containers_in(values: Seq<Json>)
    ensures
        containers_in(values) == containers_read(
            Seq::new(values.len(), |i: int| Some(values[i])),
        ),
    decreases values.len(),
{
    if values.len() > 0 {
        let all = Seq::new(values.len(), |i: int| Some(values[i]));
        let rest = values.drop_last();
        lemma_containers_in(rest);
        assert(all.drop_last() =~= Seq::new(rest.len(), |i: int| Some(rest[i])));
    }
}

/// The rows of a listing: the items of the array where the text as a whole is one, and else its
/// lines, each read on its own.
pub open spec fn rows_in(raw: Seq<char>) -> Seq<Option<Json>> {
    match json_document(trim(raw)) {
        Some(Json::Array(items)) => Seq::new(items@.len(), |i: int| Some(items@[i])),
        _ => Seq::new(lines(trim(raw)).len(), |i: int| json_document(lines(trim(raw))[i])),
    }
}

/// A listing gives one container for each row that is one, in the order of the rows, and nothing
/// else; one that holds nothing but white space gives none.
pub proof fn listings_give_each_container_once(raw: Seq<char>)
    ensures
        trim(raw).len() > 0 ==> exists|at: Seq<int>| #[trigger]
            rows_of(rows_in(raw), containers_of(raw), at),
        trim(raw).len() == 0 ==> containers_of(raw).len() == 0,
{
    match json_document(trim(raw)) {
        Some(Json::Array(items)) => {
            lemma_containers_in(items@);
        },
        _ => {
            assert(documents_of(lines(trim(raw))) =~= rows_in(raw));
        },
    }
    let at = lemma_containers_read(rows_in(raw));
    assert(trim(raw).len() > 0 ==> rows_of(rows_in(raw), containers_of(raw), at));
}

} // verus!
