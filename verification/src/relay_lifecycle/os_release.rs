//! Which system the remote runs.
use crate::text::{
    is_whitespace, lines, lower_all, lowercased, opt_view, starts_with, std_to_lowercase,
    strip_prefix, text_eq, text_lines, text_strip_prefix, text_trim, text_trim_char, text_words,
    trim, trim_end_char, trim_start_char, views, words,
};
use vstd::prelude::*;

verus! {

/// The systems that a relay can be installed on.
#[derive(Debug, Clone, Copy, PartialEq, Eq, Structural)]
pub enum OsKind {
    Debian,
    Ubuntu,
    Arch,
}

/// The system that an identifier names.
pub open spec fn os_named(id: Seq<char>) -> Option<OsKind> {
    if id == "debian"@ {
        Some(OsKind::Debian)
    } else if id == "ubuntu"@ {
        Some(OsKind::Ubuntu)
    } else if id == "arch"@ || id == "archlinux"@ {
        Some(OsKind::Arch)
    } else {
        None
    }
}

fn os_for_id(id: &str) -> (r: Option<OsKind>)
    ensures
        r == os_named(id@),
{
    if text_eq(id, "debian") {
        Some(OsKind::Debian)
    } else if text_eq(id, "ubuntu") {
        Some(OsKind::Ubuntu)
    } else if text_eq(id, "arch") || text_eq(id, "archlinux") {
        Some(OsKind::Arch)
    } else {
        None
    }
}

/// The system of the first identifier that names one.
pub open spec fn first_os(ids: Seq<Seq<char>>) -> Option<OsKind>
    decreases ids.len(),
{
    if ids.len() == 0 {
        None
    } else if os_named(ids[0]) is Some {
        os_named(ids[0])
    } else {
        first_os(ids.skip(1))
    }
}

fn os_of_first(ids: &Vec<String>) -> (r: Option<OsKind>)
    ensures
        r == first_os(views(ids@)),
{
    let mut i: usize = 0;
    assert(views(ids@).skip(0) =~= views(ids@));
    while i < ids.len()
        invariant
            i <= ids@.len(),
            first_os(views(ids@).skip(i as int)) == first_os(views(ids@)),
        decreases ids@.len() - i,
    {
        assert(views(ids@).skip(i as int)[0] == ids@[i as int]@);
        assert(views(ids@).skip(i as int).skip(1) =~= views(ids@).skip(i + 1));
        match os_for_id(ids[i].as_str()) {
            Some(os) => {
                return Some(os);
            },
            None => {},
        }
        i += 1;
    }
    None
}

/// The system that an identifier and the identifiers it is like name: the identifier counts first.
pub open spec fn os_from_ids(id: Option<Seq<char>>, id_like: Option<Seq<char>>) -> Option<OsKind> {
    let own = match id {
        Some(s) => os_named(s),
        None => None,
    };
    if own is Some {
        own
    } else {
        match id_like {
            Some(s) => first_os(words(s)),
            None => None,
        }
    }
}

/// The system that an identifier and the identifiers it is like name, both in lower case.
pub fn os_kind_of(id: &Option<String>, id_like: &Option<String>) -> (r: Option<OsKind>)
    ensures
        r == os_from_ids(opt_view(*id), opt_view(*id_like)),
{
    match id {
        Some(s) => match os_for_id(s.as_str()) {
            Some(os) => {
                return Some(os);
            },
            None => {},
        },
        None => {},
    }
    match id_like {
        None => None,
        Some(s) => os_of_first(&text_words(s.as_str())),
    }
}

/// The lower-case form of a text.
pub open spec fn lower_form(s: Seq<char>) -> Seq<char> {
    if vstd::utf8::is_ascii_chars(s) {
        lower_all(s)
    } else {
        lowercased(s)
    }
}

/// The value behind a key at the beginning of a line: without white space round the line or quotes
/// round the value, in lower case.
pub open spec fn value_of(line: Seq<char>, key: Seq<char>) -> Option<Seq<char>> {
    match strip_prefix(trim(line), key) {
        Some(v) => Some(lower_form(trim_end_char(trim_start_char(v, '"'), '"'))),
        None => None,
    }
}

fn line_value(line: &str, key: &str) -> (r: Option<String>)
    ensures
        opt_view(r) == value_of(line@, key@),
{
    let whole = text_trim(line);
    match text_strip_prefix(whole.as_str(), key) {
        Some(v) => {
            let bare = text_trim_char(v.as_str(), '"');
            Some(std_to_lowercase(bare.as_str()))
        },
        None => None,
    }
}

/// The value of the first line with a key.
pub open spec fn first_value(rows: Seq<Seq<char>>, key: Seq<char>) -> Option<Seq<char>>
    decreases rows.len(),
{
    if rows.len() == 0 {
        None
    } else {
        let before = first_value(rows.drop_last(), key);
        if before is Some {
            before
        } else {
            value_of(rows.last(), key)
        }
    }
}

/// The value of the last line with a key.
pub open spec fn last_value(rows: Seq<Seq<char>>, key: Seq<char>) -> Option<Seq<char>>
    decreases rows.len(),
{
    if rows.len() == 0 {
        None
    } else {
        let here = value_of(rows.last(), key);
        if here is Some {
            here
        } else {
            last_value(rows.drop_last(), key)
        }
    }
}

/// The system that an `os-release` file names: by its first `ID=` line, or by `ID_LIKE=` where
/// that line names none.
pub open spec fn os_in(raw: Seq<char>) -> Option<OsKind> {
    os_from_ids(first_value(lines(raw), "ID="@), last_value(lines(raw), "ID_LIKE="@))
}

/// Reads which system an `os-release` file names.
pub fn parse_os_release(raw: &str) -> (r: Option<OsKind>)
    ensures
        r == os_in(raw@),
{
    let rows = text_lines(raw);
    let mut id: Option<String> = None;
    let mut id_like: Option<String> = None;
    let mut i: usize = 0;
    while i < rows.len()
        invariant
            i <= rows@.len(),
            opt_view(id) == first_value(views(rows@).take(i as int), "ID="@),
            opt_view(id_like) == last_value(
                views(rows@).take(i as int),
                "ID_LIKE="@,
            ),
        decreases rows@.len() - i,
    {
        let ghost next = views(rows@).take(i + 1);
        assert(next.drop_last() =~= views(rows@).take(i as int));
        assert(next.last() == rows@[i as int]@);
        if id.is_none() {
            id = line_value(rows[i].as_str(), "ID=");
        }
        let like = line_value(rows[i].as_str(), "ID_LIKE=");
        if like.is_some() {
            id_like = like;
        }
        i += 1;
    }
    assert(views(rows@).take(i as int) =~= views(rows@));
    os_kind_of(&id, &id_like)
}

/// A system is known by its id: Debian, Ubuntu, and Arch by either of its two ids.
pub proof fn systems_have_their_ids(id: Seq<char>)
    ensures
        os_named(id) == Some(OsKind::Debian) <==> id == "debian"@,
        os_named(id) == Some(OsKind::Ubuntu) <==> id == "ubuntu"@,
        os_named(id) == Some(OsKind::Arch) <==> id == "arch"@ || id == "archlinux"@,
{
    reveal_strlit("debian");
    reveal_strlit("ubuntu");
    reveal_strlit("arch");
    reveal_strlit("archlinux");
    assert("debian"@[0] == 'd' && "ubuntu"@[0] == 'u' && "arch"@[0] == 'a' && "archlinux"@[0]
        == 'a');
}

/// Whether a line is the first that gives a key a value.
pub open spec fn gives_first(
    rows: Seq<Seq<char>>,
    key: Seq<char>,
    value: Seq<char>,
    at: int,
) -> bool {
    &&& 0 <= at < rows.len()
    &&& value_of(rows[at], key) == Some(value)
    &&& forall|j: int| 0 <= j < at ==> value_of(#[trigger] rows[j], key) is None
}

/// Whether a line is the last that gives a key a value.
pub open spec fn gives_last(
    rows: Seq<Seq<char>>,
    key: Seq<char>,
    value: Seq<char>,
    at: int,
) -> bool {
    &&& 0 <= at < rows.len()
    &&& value_of(rows[at], key) == Some(value)
    &&& forall|j: int| at < j < rows.len() ==> value_of(#[trigger] rows[j], key) is None
}

proof fn lemma_first_value(rows: Seq<Seq<char>>, key: Seq<char>)
    ensures
        match first_value(rows, key) {
            Some(value) => exists|at: int| #[trigger] gives_first(rows, key, value, at),
            None => forall|j: int|
                0 <= j < rows.len() ==> value_of(#[trigger] rows[j], key) is None,
        },
    decreases rows.len(),
{
    if rows.len() > 0 {
        let rest = rows.drop_last();
        let last = rows.len() - 1;
        lemma_first_value(rest, key);
        assert forall|j: int| 0 <= j < rest.len() implies rest[j] == rows[j] by {}
        if let Some(value) = first_value(rest, key) {
            let at = choose|at: int| #[trigger] gives_first(rest, key, value, at);
            assert forall|j: int| 0 <= j < at implies value_of(#[trigger] rows[j], key) is None by {
                assert(rest[j] == rows[j]);
            }
            assert(gives_first(rows, key, value, at));
        } else {
            assert forall|j: int| 0 <= j < last implies value_of(
                #[trigger] rows[j],
                key,
            ) is None by {
                assert(rest[j] == rows[j]);
            }
            if let Some(value) = first_value(rows, key) {
                assert(gives_first(rows, key, value, last));
            }
        }
    }
}

proof fn lemma_last_value(rows: Seq<Seq<char>>, key: Seq<char>)
    ensures
        match last_value(rows, key) {
            Some(value) => exists|at: int| #[trigger] gives_last(rows, key, value, at),
            None => forall|j: int|
                0 <= j < rows.len() ==> value_of(#[trigger] rows[j], key) is None,
        },
    decreases rows.len(),
{
    if rows.len() > 0 {
        let rest = rows.drop_last();
        let last = rows.len() - 1;
        lemma_last_value(rest, key);
        assert forall|j: int| 0 <= j < rest.len() implies rest[j] == rows[j] by {}
        if value_of(rows.last(), key) is Some {
            assert(gives_last(rows, key, value_of(rows.last(), key)->0, last));
        } else if let Some(value) = last_value(rest, key) {
            let at = choose|at: int| #[trigger] gives_last(rest, key, value, at);
            assert forall|j: int| at < j < rows.len() implies value_of(
                #[trigger] rows[j],
                key,
            ) is None by {
                if j < last {
                    assert(rest[j] == rows[j]);
                }
            }
            assert(gives_last(rows, key, value, at));
        } else {
            assert forall|j: int| 0 <= j < rows.len() implies value_of(
                #[trigger] rows[j],
                key,
            ) is None by {
                if j < last {
                    assert(rest[j] == rows[j]);
                }
            }
        }
    }
}

proof fn lemma_first_os(ids: Seq<Seq<char>>)
    ensures
        match first_os(ids) {
            Some(os) => exists|k: int|
                {
                    &&& 0 <= k < ids.len()
                    &&& os_named(#[trigger] ids[k]) == Some(os)
                    &&& forall|j: int| 0 <= j < k ==> os_named(#[trigger] ids[j]) is None
                },
            None => forall|j: int| 0 <= j < ids.len() ==> os_named(#[trigger] ids[j]) is None,
        },
    decreases ids.len(),
{
    if ids.len() > 0 {
        let rest = ids.skip(1);
        lemma_first_os(rest);
        assert forall|j: int| 0 <= j < rest.len() implies rest[j] == ids[j + 1] by {}
        if os_named(ids[0]) is Some {
        } else if let Some(os) = first_os(rest) {
            let k = choose|k: int|
                {
                    &&& 0 <= k < rest.len()
                    &&& os_named(#[trigger] rest[k]) == Some(os)
                    &&& forall|j: int| 0 <= j < k ==> os_named(#[trigger] rest[j]) is None
                };
            assert(os_named(ids[k + 1]) == Some(os));
            assert forall|j: int| 0 <= j < k + 1 implies os_named(#[trigger] ids[j]) is None by {
                if j > 0 {
                    assert(rest[j - 1] == ids[j]);
                }
            }
        } else {
            assert forall|j: int| 0 <= j < ids.len() implies os_named(#[trigger] ids[j]) is None by {
                if j > 0 {
                    assert(rest[j - 1] == ids[j]);
                }
            }
        }
    }
}

/// Whether the words of a text name a system, the first of them that names one.
pub open spec fn names_like(text: Seq<char>, os: OsKind) -> bool {
    exists|k: int|
        {
            &&& 0 <= k < words(text).len()
            &&& os_named(#[trigger] words(text)[k]) == Some(os)
            &&& forall|j: int| 0 <= j < k ==> os_named(#[trigger] words(text)[j]) is None
        }
}

/// The system of a release file is the one that its `ID` names. Only where that names none, or
/// there is none, does `ID_LIKE` count, and of its words the first that names a system.
pub proof fn own_id_comes_before_its_likes(raw: &str, r: Option<OsKind>)
    requires
        call_ensures(parse_os_release, (raw,), r),
    ensures
        ({
            let rows = lines(raw@);
            let own = exists|value: Seq<char>, at: int| #[trigger]
                gives_first(rows, "ID="@, value, at) && os_named(value) is Some;
            &&& own ==> exists|value: Seq<char>, at: int| #[trigger]
                gives_first(rows, "ID="@, value, at) && r == os_named(value) && r is Some
            &&& !own ==> match r {
                Some(os) => exists|value: Seq<char>, at: int| #[trigger]
                    gives_last(rows, "ID_LIKE="@, value, at) && names_like(value, os),
                None => forall|value: Seq<char>, at: int, os: OsKind| #[trigger]
                    gives_last(rows, "ID_LIKE="@, value, at) ==> !(#[trigger] names_like(value, os)),
            }
        }),
{
    let rows = lines(raw@);
    lemma_first_value(rows, "ID="@);
    lemma_last_value(rows, "ID_LIKE="@);
    let own = exists|value: Seq<char>, at: int| #[trigger]
        gives_first(rows, "ID="@, value, at) && os_named(value) is Some;
    if own {
        let (value, at) = choose|value: Seq<char>, at: int| #[trigger]
            gives_first(rows, "ID="@, value, at) && os_named(value) is Some;
        let known = first_value(rows, "ID="@)->0;
        let there = choose|there: int| #[trigger] gives_first(rows, "ID="@, known, there);
        assert(value_of(rows[at], "ID="@) is Some && value_of(rows[there], "ID="@) is Some);
        assert(at == there);
    } else {
        if let Some(value) = last_value(rows, "ID_LIKE="@) {
            lemma_first_os(words(value));
            let there = choose|there: int| #[trigger] gives_last(rows, "ID_LIKE="@, value, there);
            assert forall|other: Seq<char>, at: int, os: OsKind| #[trigger]
                gives_last(rows, "ID_LIKE="@, other, at) && r is None implies !(
            #[trigger] names_like(other, os)) by {
                assert(value_of(rows[at], "ID_LIKE="@) is Some);
                assert(value_of(rows[there], "ID_LIKE="@) is Some);
                assert(at == there);
            }
        }
    }
}

/// Whether a text is made of small letters and digits of ASCII, at least one.
pub open spec fn is_small(s: Seq<char>) -> bool {
    s.len() > 0 && forall|i: int|
        0 <= i < s.len() ==> 'a' <= #[trigger] s[i] <= 'z' || '0' <= s[i] <= '9'
}

proof fn lemma_small_value(value: Seq<char>)
    requires
        is_small(value),
    ensures
        lower_form(value) == value,
        trim_end_char(trim_start_char(value, '"'), '"') == value,
        trim_end_char(trim_start_char(seq!['"'] + value + seq!['"'], '"'), '"') == value,
{
    let quoted = seq!['"'] + value + seq!['"'];
    let opened = value + seq!['"'];
    assert(value[0] == value[0] && value.last() == value[value.len() - 1]);
    assert(quoted.skip(1) =~= opened);
    assert(quoted[0] == '"');
    assert(opened[0] == value[0]);
    assert(trim_start_char(opened, '"') == opened);
    assert(trim_start_char(quoted, '"') == opened);
    assert(opened.last() == '"');
    assert(opened.drop_last() =~= value);
    assert(trim_end_char(value, '"') == value);
    assert(lower_all(value) =~= value);
}

/// A line that gives a key a value of small letters and digits gives it that value, in quotation
/// marks or without, and a line that does not begin with the key gives it none.
pub proof fn lines_give_their_value(key: Seq<char>, value: Seq<char>, line: Seq<char>)
    requires
        is_small(value),
        key.len() > 0,
        !is_whitespace(key[0]),
    ensures
        value_of(key + value, key) == Some(value),
        value_of(key + seq!['"'] + value + seq!['"'], key) == Some(value),
        value_of(line, key) is Some ==> starts_with(trim(line), key),
{
    let bare = key + value;
    let marked = seq!['"'] + value + seq!['"'];
    let quoted = key + seq!['"'] + value + seq!['"'];
    lemma_small_value(value);
    assert(quoted =~= key + marked);
    assert(bare[0] == key[0] && quoted[0] == key[0]);
    assert(bare.last() == value[value.len() - 1]);
    assert(quoted.last() == '"');
    assert(trim(bare) == bare);
    assert(trim(quoted) == quoted);
    assert(bare.take(key.len() as int) =~= key);
    assert(quoted.take(key.len() as int) =~= key);
    assert(bare.skip(key.len() as int) =~= value);
    assert(quoted.skip(key.len() as int) =~= marked);
}

} // verus!
