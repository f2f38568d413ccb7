//! The compose file: which image version is the latest, and how images are pinned in the file.
use crate::error::{outcome, ErrorView, RustmoteError};
use crate::relay_lifecycle::commands::{image_ref, is_tag_char, pinned_image_ref};
use crate::relay_lifecycle::state::{ImagePin, PinView};
use crate::text::{
    char_is_alphanumeric, chars_of, concat, concat3, join, lemma_join_first, lemma_join_prefix,
    lemma_pieces_not_empty, lemma_pieces_skip, lemma_replace_by_itself, matches_at, parse_u64,
    pieces, pieces_hold_no_match, replace_all, replacing_joins_the_pieces, split, starts_with,
    text_eq, text_parse_u64, text_replace, text_split, views,
};
use vstd::prelude::*;

verus! {

// ---------------------------------------------------------------------------------------------
// Versions
// ---------------------------------------------------------------------------------------------

/// The numbers of pieces that are all numbers.
pub open spec fn numbers(pieces: Seq<Seq<char>>) -> Option<Seq<u64>>
    decreases pieces.len(),
{
    if pieces.len() == 0 {
        Some(seq![])
    } else {
        match (numbers(pieces.drop_last()), parse_u64(pieces.last())) {
            (Some(before), Some(n)) => Some(before.push(n)),
            _ => None,
        }
    }
}

/// The version that a tag of numbers between dots names.
pub open spec fn version(tag: Seq<char>) -> Option<Seq<u64>> {
    numbers(split(tag, '.'))
}

proof fn lemma_no_numbers(pieces: Seq<Seq<char>>, i: int)
    requires
        0 <= i < pieces.len(),
        parse_u64(pieces[i]) is None,
    ensures
        numbers(pieces) is None,
    decreases pieces.len(),
{
    if i < pieces.len() - 1 {
        lemma_no_numbers(pieces.drop_last(), i);
    }
}

/// Reads a tag of numbers between dots.
pub fn parse_dotted_numeric(t: &str) -> (r: Option<Vec<u64>>)
    ensures
        match r {
            Some(parts) => version(t@) == Some(parts@),
            None => version(t@) is None,
        },
{
    let pieces = text_split(t, '.');
    let mut parts: Vec<u64> = Vec::new();
    let mut i: usize = 0;
    assert(parts@ =~= Seq::empty());
    while i < pieces.len()
        invariant
            i <= pieces@.len(),
            views(pieces@) == split(t@, '.'),
            numbers(views(pieces@).take(i as int)) == Some(parts@),
        decreases pieces@.len() - i,
    {
        let ghost next = views(pieces@).take(i + 1);
        assert(next.drop_last() =~= views(pieces@).take(i as int));
        assert(next.last() == pieces@[i as int]@);
        match text_parse_u64(pieces[i].as_str()) {
            Some(n) => {
                parts.push(n);
            },
            None => {
                proof {
                    lemma_no_numbers(views(pieces@), i as int);
                }
                return None;
            },
        }
        i += 1;
    }
    assert(views(pieces@).take(i as int) =~= views(pieces@));
    Some(parts)
}

/// Whether one version is higher than another: the first number that differs decides, and of two
/// versions one of which begins with the other, the longer is higher.
pub open spec fn higher(a: Seq<u64>, b: Seq<u64>) -> bool
    decreases a.len(),
{
    if a.len() == 0 {
        false
    } else if b.len() == 0 {
        true
    } else if a[0] != b[0] {
        a[0] > b[0]
    } else {
        higher(a.skip(1), b.skip(1))
    }
}

fn is_higher(a: &Vec<u64>, b: &Vec<u64>) -> (r: bool)
    ensures
        r == higher(a@, b@),
{
    let mut i: usize = 0;
    assert(a@.skip(0) =~= a@ && b@.skip(0) =~= b@);
    while i < a.len() && i < b.len()
        invariant
            i <= a@.len(),
            i <= b@.len(),
            higher(a@.skip(i as int), b@.skip(i as int)) == higher(a@, b@),
        decreases a@.len() - i,
    {
        assert(a@.skip(i as int)[0] == a@[i as int] && b@.skip(i as int)[0] == b@[i as int]);
        assert(a@.skip(i as int).skip(1) =~= a@.skip(i + 1));
        assert(b@.skip(i as int).skip(1) =~= b@.skip(i + 1));
        if a[i] != b[i] {
            return a[i] > b[i];
        }
        i += 1;
    }
    i < a.len()
}

proof fn lemma_higher_order(a: Seq<u64>, b: Seq<u64>, c: Seq<u64>)
    ensures
        higher(a, b) && !higher(c, b) ==> higher(a, c),
        higher(a, b) ==> !higher(b, a),
        !higher(a, a),
        !higher(a, b) && !higher(b, c) ==> !higher(a, c),
    decreases a.len() + b.len() + c.len(),
{
    if a.len() > 0 && b.len() > 0 && c.len() > 0 {
        lemma_higher_order(a.skip(1), b.skip(1), c.skip(1));
    } else if a.len() > 0 && b.len() > 0 {
        lemma_higher_order(a.skip(1), b.skip(1), c);
    } else if a.len() > 0 {
        lemma_higher_order(a.skip(1), b, c);
    }
}

/// The tag of the highest version, the first of equal ones; tags that name no version are passed
/// over.
pub open spec fn latest(tags: Seq<Seq<char>>) -> Option<Seq<char>>
    decreases tags.len(),
{
    if tags.len() == 0 {
        None
    } else {
        let best = latest(tags.drop_last());
        match version(tags.last()) {
            None => best,
            Some(v) => match best {
                Some(t) if !higher(v, version(t)->0) => best,
                _ => Some(tags.last()),
            },
        }
    }
}

/// The tag of the highest version.
pub fn pick_latest_semver(tags: &Vec<String>) -> (r: Option<String>)
    ensures
        match r {
            Some(t) => latest(views(tags@)) == Some(t@),
            None => latest(views(tags@)) is None,
        },
{
    let mut best: Option<(Vec<u64>, usize)> = None;
    let mut i: usize = 0;
    while i < tags.len()
        invariant
            i <= tags@.len(),
            match best {
                Some((v, at)) => at < i && latest(views(tags@).take(i as int)) == Some(
                    tags@[at as int]@,
                ) && version(tags@[at as int]@) == Some(v@),
                None => latest(views(tags@).take(i as int)) is None,
            },
        decreases tags@.len() - i,
    {
        let ghost next = views(tags@).take(i + 1);
        assert(next.drop_last() =~= views(tags@).take(i as int));
        assert(next.last() == tags@[i as int]@);
        match parse_dotted_numeric(tags[i].as_str()) {
            Some(v) => {
                let better = match &best {
                    Some((current, _)) => is_higher(&v, current),
                    None => true,
                };
                if better {
                    best = Some((v, i));
                }
            },
            None => {},
        }
        i += 1;
    }
    assert(views(tags@).take(i as int) =~= views(tags@));
    match best {
        Some((_, at)) => Some(tags[at].clone()),
        None => None,
    }
}

/// The tag picked names a version, and none of the tags names a higher one; where no tag names a
/// version, none is picked.
pub proof fn latest_is_highest(tags: Seq<Seq<char>>)
    ensures
        latest(tags) is None <==> forall|i: int|
            0 <= i < tags.len() ==> version(#[trigger] tags[i]) is None,
        latest(tags) matches Some(t) ==> tags.contains(t) && version(t) is Some && forall|i: int|
            0 <= i < tags.len() && version(#[trigger] tags[i]) is Some ==> !higher(
                version(tags[i])->0,
                version(t)->0,
            ),
    decreases tags.len(),
{
    if tags.len() > 0 {
        let rest = tags.drop_last();
        latest_is_highest(rest);
        let last = tags.last();
        assert(tags[tags.len() - 1] == last);
        assert(forall|i: int| 0 <= i < rest.len() ==> rest[i] == tags[i]);
        match latest(rest) {
            Some(t) => {
                let k = choose|k: int| 0 <= k < rest.len() && rest[k] == t;
                assert(tags[k] == t);
            },
            None => {},
        }
        if latest(tags) is Some {
            let t = latest(tags)->0;
            assert forall|i: int|
                0 <= i < tags.len() && version(#[trigger] tags[i]) is Some implies !higher(
                version(tags[i])->0,
                version(t)->0,
            ) by {
                lemma_higher_order(version(tags[i])->0, version(t)->0, version(t)->0);
                if i < rest.len() && latest(rest) is Some {
                    let old = latest(rest)->0;
                    assert(rest[i] == tags[i]);
                    lemma_higher_order(version(t)->0, version(old)->0, version(tags[i])->0);
                    lemma_higher_order(version(tags[i])->0, version(old)->0, version(t)->0);
                    lemma_higher_order(version(t)->0, version(tags[i])->0, version(t)->0);
                }
                if i == rest.len() {
                    lemma_higher_order(version(last)->0, version(t)->0, version(t)->0);
                }
            }
        }
    }
}

// ---------------------------------------------------------------------------------------------
// Pinning
// ---------------------------------------------------------------------------------------------

/// Whether a pin of the same image stands in a list.
pub open spec fn same_image_in(pins: Seq<PinView>, pin: PinView) -> bool {
    exists|i: int|
        0 <= i < pins.len() && (#[trigger] pins[i]).repo == pin.repo && pins[i].tag == pin.tag
            && pins[i].digest == pin.digest
}

/// An image line that names repository and tag.
pub open spec fn image_line(repo: Seq<char>, tag: Seq<char>) -> Seq<char> {
    "image: "@ + repo + ":"@ + tag
}

/// The template with the digest put behind each tag: for each pin, in order and once per image,
/// every `image: repo:tag` becomes `image: repo:tag@digest`. A malformed pin fails.
pub open spec fn rendered(template: Seq<char>, pins: Seq<PinView>) -> Result<Seq<char>, ErrorView>
    decreases pins.len(),
{
    if pins.len() == 0 {
        Ok(template)
    } else {
        let pin = pins.last();
        match rendered(template, pins.drop_last()) {
            Err(e) => Err(e),
            Ok(text) => if same_image_in(pins.drop_last(), pin) {
                Ok(text)
            } else {
                match image_ref(pin.repo, pin.tag, pin.digest) {
                    Err(e) => Err(e),
                    Ok(reference) => Ok(
                        replace_all(text, image_line(pin.repo, pin.tag), "image: "@ + reference),
                    ),
                }
            },
        }
    }
}

fn is_same_image_in(pins: &Vec<ImagePin>, count: usize, pin: &ImagePin) -> (r: bool)
    requires
        count <= pins@.len(),
    ensures
        r == same_image_in(views(pins@).take(count as int), pin@),
{
    let ghost seen = views(pins@).take(count as int);
    let mut i: usize = 0;
    while i < count
        invariant
            i <= count <= pins@.len(),
            seen == views(pins@).take(count as int),
            forall|j: int|
                0 <= j < i ==> !((#[trigger] seen[j]).repo == pin@.repo && seen[j].tag == pin@.tag
                    && seen[j].digest == pin@.digest),
        decreases count - i,
    {
        let p = &pins[i];
        assert(seen[i as int] == p@);
        if text_eq(p.repo.as_str(), pin.repo.as_str()) && text_eq(p.tag.as_str(), pin.tag.as_str())
            && text_eq(p.digest.as_str(), pin.digest.as_str()) {
            return true;
        }
        i += 1;
    }
    false
}

proof fn lemma_rendered_fails(template: Seq<char>, pins: Seq<PinView>, count: int, e: ErrorView)
    requires
        0 <= count <= pins.len(),
        rendered(template, pins.take(count)) == Err::<Seq<char>, ErrorView>(e),
    ensures
        rendered(template, pins) == Err::<Seq<char>, ErrorView>(e),
    decreases pins.len() - count,
{
    if count < pins.len() {
        assert(pins.take(count + 1).drop_last() =~= pins.take(count));
        lemma_rendered_fails(template, pins, count + 1, e);
    } else {
        assert(pins.take(count) =~= pins);
    }
}

/// Puts the digests of the pins behind the tags of a compose template.
pub fn render_compose_with_pins(template: &str, pins: &Vec<ImagePin>) -> (r: Result<
    String,
    RustmoteError,
>)
    ensures
        outcome(r) == rendered(template@, views(pins@)),
{
    let mut text = template.to_owned();
    let mut i: usize = 0;
    while i < pins.len()
        invariant
            i <= pins@.len(),
            rendered(template@, views(pins@).take(i as int)) == Ok::<Seq<char>, ErrorView>(text@),
        decreases pins@.len() - i,
    {
        let pin = &pins[i];
        let ghost next = views(pins@).take(i + 1);
        assert(next.drop_last() =~= views(pins@).take(i as int));
        assert(next.last() == pin@);
        if !is_same_image_in(pins, i, pin) {
            match pinned_image_ref(pin.repo.as_str(), pin.tag.as_str(), pin.digest.as_str()) {
                Err(e) => {
                    proof {
                        lemma_rendered_fails(template@, views(pins@), i + 1, e@);
                    }
                    return Err(e);
                },
                Ok(reference) => {
                    let mut search = concat3("image: ", pin.repo.as_str(), ":");
                    search.push_str(pin.tag.as_str());
                    let replacement = concat("image: ", reference.as_str());
                    proof {
                        reveal_strlit("image: ");
                        assert(search@.len() > 0);
                    }
                    text = text_replace(text.as_str(), search.as_str(), replacement.as_str());
                },
            }
        }
        i += 1;
    }
    assert(views(pins@).take(i as int) =~= views(pins@));
    Ok(text)
}

/// The length of the tag at the beginning of a text.
pub open spec fn tag_len(s: Seq<char>) -> nat
    decreases s.len(),
{
    if s.len() == 0 || !is_tag_char(s[0]) {
        0
    } else {
        1 + tag_len(s.skip(1))
    }
}

/// The text with another tag behind each occurrence of `head`, where a tag stands there.
pub open spec fn retagged(s: Seq<char>, head: Seq<char>, tag: Seq<char>) -> Seq<char>
    decreases s.len(),
{
    if head.len() == 0 || s.len() < head.len() {
        s
    } else if starts_with(s, head) && tag_len(s.skip(head.len() as int)) > 0 {
        let rest = s.skip(head.len() as int);
        let after = rest.skip(tag_len(rest) as int);
        if after.len() < s.len() {
            head + tag + retagged(after, head, tag)
        } else {
            s
        }
    } else {
        seq![s[0]] + retagged(s.skip(1), head, tag)
    }
}

proof fn lemma_tag_len(s: Seq<char>)
    ensures
        tag_len(s) <= s.len(),
    decreases s.len(),
{
    if s.len() > 0 && is_tag_char(s[0]) {
        lemma_tag_len(s.skip(1));
    }
}

/// Puts another tag behind each occurrence of a non-empty text.
pub fn retag(s: &str, head: &str, tag: &str) -> (out: String)
    requires
        head@.len() > 0,
    ensures
        out@ == retagged(s@, head@, tag@),
{
    let chars = chars_of(s);
    let pattern = chars_of(head);
    let mut out = String::new();
    let mut at: usize = 0;
    assert(chars@.skip(0) =~= s@);
    assert(out@ + retagged(chars@.skip(0), head@, tag@) =~= retagged(s@, head@, tag@));
    while at < chars.len()
        invariant
            at <= chars@.len(),
            pattern@ == head@,
            head@.len() > 0,
            out@ + retagged(chars@.skip(at as int), head@, tag@) == retagged(s@, head@, tag@),
        decreases chars@.len() - at,
    {
        let ghost rest = chars@.skip(at as int);
        let ghost before = out@;
        let mut end: usize = at;
        if matches_at(&chars, at, &pattern) {
            let from: usize = at + pattern.len();
            end = from;
            let ghost behind = chars@.skip(from as int);
            assert(rest.skip(head@.len() as int) =~= behind);
            while end < chars.len() && (char_is_alphanumeric(chars[end]) || chars[end] == '_'
                || chars[end] == '.' || chars[end] == '-')
                invariant
                    from <= end <= chars@.len(),
                    behind == chars@.skip(from as int),
                    tag_len(behind) == (end - from) + tag_len(chars@.skip(end as int)),
                decreases chars@.len() - end,
            {
                assert(chars@.skip(end as int).skip(1) =~= chars@.skip(end + 1));
                assert(chars@.skip(end as int)[0] == chars@[end as int]);
                end += 1;
            }
            proof {
                if end < chars@.len() {
                    assert(chars@.skip(end as int)[0] == chars@[end as int]);
                }
                assert(tag_len(behind) == end - from);
                assert(behind.skip(end - from) =~= chars@.skip(end as int));
            }
            if end == from {
                end = at;
            }
        }
        if end > at {
            out.push_str(head);
            out.push_str(tag);
            assert(out@ + retagged(chars@.skip(end as int), head@, tag@) =~= before + (head@ + tag@
                + retagged(chars@.skip(end as int), head@, tag@)));
            at = end;
        } else {
            out.push(chars[at]);
            proof {
                assert(rest[0] == chars@[at as int]);
                assert(rest.skip(1) =~= chars@.skip(at + 1));
                if rest.len() < head@.len() {
                    assert(rest =~= seq![rest[0]] + rest.skip(1));
                }
                assert(out@ + retagged(chars@.skip(at + 1), head@, tag@) =~= before + (
                seq![rest[0]] + retagged(chars@.skip(at + 1), head@, tag@)));
            }
            at += 1;
        }
    }
    assert(chars@.skip(at as int) =~= Seq::empty());
    assert(out@ + retagged(chars@.skip(at as int), head@, tag@) =~= out@);
    out
}

/// Whether a pin of the same repository stands in a list.
pub open spec fn same_repo_in(pins: Seq<PinView>, pin: PinView) -> bool {
    exists|i: int| 0 <= i < pins.len() && (#[trigger] pins[i]).repo == pin.repo
}

/// The template with the pins' images, whatever tags it holds: every image line of a repository
/// gets the tag and the digest of the first pin of that repository. A malformed pin fails.
pub open spec fn repinned(template: Seq<char>, pins: Seq<PinView>) -> Result<Seq<char>, ErrorView>
    decreases pins.len(),
{
    if pins.len() == 0 {
        Ok(template)
    } else {
        let pin = pins.last();
        match repinned(template, pins.drop_last()) {
            Err(e) => Err(e),
            Ok(text) => match image_ref(pin.repo, pin.tag, pin.digest) {
                Err(e) => Err(e),
                Ok(_) => if same_repo_in(pins.drop_last(), pin) {
                    Ok(text)
                } else {
                    Ok(
                        retagged(
                            text,
                            "image: "@ + pin.repo + ":"@,
                            pin.tag + "@"@ + pin.digest,
                        ),
                    )
                },
            },
        }
    }
}

fn is_same_repo_in(pins: &Vec<ImagePin>, count: usize, pin: &ImagePin) -> (r: bool)
    requires
        count <= pins@.len(),
    ensures
        r == same_repo_in(views(pins@).take(count as int), pin@),
{
    let ghost seen = views(pins@).take(count as int);
    let mut i: usize = 0;
    while i < count
        invariant
            i <= count <= pins@.len(),
            seen == views(pins@).take(count as int),
            forall|j: int| 0 <= j < i ==> (#[trigger] seen[j]).repo != pin@.repo,
        decreases count - i,
    {
        assert(seen[i as int] == pins@[i as int]@);
        if text_eq(pins[i].repo.as_str(), pin.repo.as_str()) {
            return true;
        }
        i += 1;
    }
    false
}

proof fn lemma_repinned_fails(template: Seq<char>, pins: Seq<PinView>, count: int, e: ErrorView)
    requires
        0 <= count <= pins.len(),
        repinned(template, pins.take(count)) == Err::<Seq<char>, ErrorView>(e),
    ensures
        repinned(template, pins) == Err::<Seq<char>, ErrorView>(e),
    decreases pins.len() - count,
{
    if count < pins.len() {
        assert(pins.take(count + 1).drop_last() =~= pins.take(count));
        lemma_repinned_fails(template, pins, count + 1, e);
    } else {
        assert(pins.take(count) =~= pins);
    }
}

/// Puts the tags and digests of the pins into a compose template, whatever tags it holds.
pub fn repin_compose(template: &str, pins: &Vec<ImagePin>) -> (r: Result<String, RustmoteError>)
    ensures
        outcome(r) == repinned(template@, views(pins@)),
{
    let mut text = template.to_owned();
    let mut i: usize = 0;
    while i < pins.len()
        invariant
            i <= pins@.len(),
            repinned(template@, views(pins@).take(i as int)) == Ok::<Seq<char>, ErrorView>(text@),
        decreases pins@.len() - i,
    {
        let pin = &pins[i];
        let ghost next = views(pins@).take(i + 1);
        assert(next.drop_last() =~= views(pins@).take(i as int));
        assert(next.last() == pin@);
        match pinned_image_ref(pin.repo.as_str(), pin.tag.as_str(), pin.digest.as_str()) {
            Err(e) => {
                proof {
                    lemma_repinned_fails(template@, views(pins@), i + 1, e@);
                }
                return Err(e);
            },
            Ok(_) => {},
        }
        if !is_same_repo_in(pins, i, pin) {
            let head = concat3("image: ", pin.repo.as_str(), ":");
            let version = concat3(pin.tag.as_str(), "@", pin.digest.as_str());
            proof {
                reveal_strlit("image: ");
                assert(head@.len() > 0);
            }
            text = retag(text.as_str(), head.as_str(), version.as_str());
        }
        i += 1;
    }
    assert(views(pins@).take(i as int) =~= views(pins@));
    Ok(text)
}

/// Whether all pins name one image.
pub open spec fn one_image(pins: Seq<PinView>) -> bool {
    forall|i: int|
        0 <= i < pins.len() ==> (#[trigger] pins[i]).repo == pins[0].repo && pins[i].tag
            == pins[0].tag && pins[i].digest == pins[0].digest
}

/// Where all services run one image, the compose file is the template with the digest behind every
/// `image: repo:tag`: the pieces between those lines stay as they are, none of them holds such a
/// line, and every such line is pinned.
pub proof fn every_image_line_is_pinned(template: Seq<char>, pins: Seq<PinView>)
    requires
        pins.len() > 0,
        one_image(pins),
        image_ref(pins[0].repo, pins[0].tag, pins[0].digest) is Ok,
    ensures
        ({
            let line = image_line(pins[0].repo, pins[0].tag);
            let between = pieces(template, line);
            &&& template == join(between, line)
            &&& rendered(template, pins) == Ok::<Seq<char>, ErrorView>(
                join(between, line + "@"@ + pins[0].digest),
            )
            &&& forall|i: int, at: int|
                0 <= i < between.len() && 0 <= at <= between[i].len() ==> !starts_with(
                    #[trigger] between[i].skip(at),
                    line,
                )
        }),
{
    let line = image_line(pins[0].repo, pins[0].tag);
    let pinned = "image: "@ + image_ref(pins[0].repo, pins[0].tag, pins[0].digest)->Ok_0;
    reveal_strlit("image: ");
    assert(line.len() > 0);
    assert(pinned =~= line + "@"@ + pins[0].digest);
    lemma_rendered_once(template, pins, pins.len() as int);
    assert(pins.take(pins.len() as int) =~= pins);
    replacing_joins_the_pieces(template, line, pinned);
    replacing_joins_the_pieces(template, line, line);
    lemma_replace_by_itself(template, line);
    pieces_hold_no_match(template, line);
}

proof fn lemma_rendered_once(template: Seq<char>, pins: Seq<PinView>, count: int)
    requires
        0 < count <= pins.len(),
        one_image(pins),
        image_ref(pins[0].repo, pins[0].tag, pins[0].digest) is Ok,
    ensures
        rendered(template, pins.take(count)) == Ok::<Seq<char>, ErrorView>(
            replace_all(
                template,
                image_line(pins[0].repo, pins[0].tag),
                "image: "@ + image_ref(pins[0].repo, pins[0].tag, pins[0].digest)->Ok_0,
            ),
        ),
    decreases count,
{
    let now = pins.take(count);
    let before = pins.take(count - 1);
    assert(now.drop_last() =~= before);
    assert(now.last() == pins[count - 1]);
    if count > 1 {
        lemma_rendered_once(template, pins, count - 1);
        assert(before[0] == pins[0]);
        assert(same_image_in(before, now.last()));
    } else {
        assert(before =~= Seq::empty());
        assert(!same_image_in(before, now.last()));
    }
}

/// A piece that begins with a tag, with another version in the tag's place.
pub open spec fn with_version(piece: Seq<char>, version: Seq<char>) -> Seq<char> {
    version + piece.skip(tag_len(piece) as int)
}

/// The pieces behind each image line's head, with another version in the place of their tags.
pub open spec fn with_versions(between: Seq<Seq<char>>, version: Seq<char>) -> Seq<Seq<char>> {
    Seq::new(
        between.len(),
        |i: int|
            if i == 0 {
                between[0]
            } else {
                with_version(between[i], version)
            },
    )
}

/// Whether each piece behind a head begins with a tag, which ends before the next head.
pub open spec fn begin_with_tags(between: Seq<Seq<char>>) -> bool {
    forall|i: int|
        1 <= i < between.len() ==> tag_len(#[trigger] between[i]) > 0 && (i < between.len() - 1
            ==> tag_len(between[i]) < between[i].len())
}

proof fn lemma_tag_len_prefix(s: Seq<char>, p: Seq<char>)
    requires
        starts_with(s, p),
        tag_len(p) < p.len(),
    ensures
        tag_len(s) == tag_len(p),
    decreases p.len(),
{
    assert(s.take(p.len() as int)[0] == s[0]);
    if is_tag_char(p[0]) {
        assert(s.skip(1).take(p.len() - 1) =~= p.skip(1)) by {
            assert forall|i: int| 0 <= i < p.len() - 1 implies s.skip(1)[i] == p.skip(1)[i] by {
                assert(s.take(p.len() as int)[i + 1] == p[i + 1]);
            }
        }
        lemma_tag_len_prefix(s.skip(1), p.skip(1));
    }
}

/// Every image line of a repository gets the new tag and digest: where each `image: repo:` of the
/// template has a tag behind it, the new compose file is the template with the pin's tag and digest
/// in the place of each of these tags, and nothing else is another than before.
pub proof fn every_image_line_is_repinned(s: Seq<char>, head: Seq<char>, version: Seq<char>)
    requires
        head.len() > 0,
        begin_with_tags(pieces(s, head)),
    ensures
        s == join(pieces(s, head), head),
        retagged(s, head, version) == join(with_versions(pieces(s, head), version), head),
    decreases s.len(),
{
    let all = pieces(s, head);
    lemma_pieces_not_empty(s, head);
    replacing_joins_the_pieces(s, head, head);
    lemma_replace_by_itself(s, head);
    if s.len() < head.len() {
        assert(with_versions(all, version) =~= seq![s]);
    } else if starts_with(s, head) {
        let rest = s.skip(head.len() as int);
        let behind = pieces(rest, head);
        let first = behind[0];
        lemma_pieces_not_empty(rest, head);
        pieces_hold_no_match(rest, head);
        lemma_tag_len(first);
        assert(all =~= seq![Seq::<char>::empty()] + behind);
        assert(all[1] == first);
        assert(tag_len(first) > 0);
        assert(tag_len(rest) == tag_len(first)) by {
            if behind.len() == 1 {
                replacing_joins_the_pieces(rest, head, head);
                lemma_replace_by_itself(rest, head);
                assert(rest == first);
            } else {
                lemma_tag_len_prefix(rest, first);
            }
        }
        let n = tag_len(first) as int;
        let after = rest.skip(n);
        lemma_pieces_skip(rest, head, n);
        let left = pieces(after, head);
        assert(left == behind.update(0, first.skip(n)));
        assert(begin_with_tags(left)) by {
            assert forall|i: int| 1 <= i < left.len() implies tag_len(#[trigger] left[i]) > 0 && (i
                < left.len() - 1 ==> tag_len(left[i]) < left[i].len()) by {
                assert(left[i] == all[i + 1]);
            }
        }
        every_image_line_is_repinned(after, head, version);
        let now = with_versions(all, version);
        let later = with_versions(left, version);
        lemma_join_first(now, head);
        lemma_join_prefix(later, head, version);
        assert(now.skip(1) =~= later.update(0, version + later[0])) by {
            assert forall|i: int| 0 <= i < now.len() - 1 implies now.skip(1)[i] == later.update(
                0,
                version + later[0],
            )[i] by {
                assert(now.skip(1)[i] == with_version(all[i + 1], version));
                assert(all[i + 1] == behind[i]);
                if i > 0 {
                    assert(left[i] == behind[i]);
                }
            }
        }
        assert(now[0] + head =~= head);
        assert(head + (version + join(later, head)) =~= head + version + join(later, head));
    } else {
        let rest = pieces(s.skip(1), head);
        lemma_pieces_not_empty(s.skip(1), head);
        assert(all =~= rest.update(0, seq![s[0]] + rest[0]));
        assert(begin_with_tags(rest)) by {
            assert forall|i: int| 1 <= i < rest.len() implies tag_len(#[trigger] rest[i]) > 0 && (i
                < rest.len() - 1 ==> tag_len(rest[i]) < rest[i].len()) by {
                assert(rest[i] == all[i]);
            }
        }
        every_image_line_is_repinned(s.skip(1), head, version);
        let now = with_versions(all, version);
        let later = with_versions(rest, version);
        lemma_join_prefix(later, head, seq![s[0]]);
        assert(now =~= later.update(0, seq![s[0]] + later[0])) by {
            assert forall|i: int| 0 <= i < now.len() implies now[i] == later.update(
                0,
                seq![s[0]] + later[0],
            )[i] by {
                if i > 0 {
                    assert(all[i] == rest[i]);
                }
            }
        }
    }
}

// ---------------------------------------------------------------------------------------------
// What holds of versions and pins
// ---------------------------------------------------------------------------------------------

/// A tag names a version exactly where each of its parts between dots is a number, and the version
/// is those numbers, one by one.
pub proof fn tags_name_their_numbers(tag: Seq<char>)
    ensures
        ({
            let parts = split(tag, '.');
            &&& version(tag) matches Some(v) ==> v.len() == parts.len() && forall|i: int|
                0 <= i < parts.len() ==> parse_u64(#[trigger] parts[i]) == Some(v[i])
            &&& version(tag) is None ==> exists|i: int|
                0 <= i < parts.len() && parse_u64(#[trigger] parts[i]) is None
        }),
{
    lemma_numbers(split(tag, '.'));
}

proof fn lemma_numbers(parts: Seq<Seq<char>>)
    ensures
        numbers(parts) matches Some(v) ==> v.len() == parts.len() && forall|i: int|
            0 <= i < parts.len() ==> parse_u64(#[trigger] parts[i]) == Some(v[i]),
        numbers(parts) is None ==> exists|i: int|
            0 <= i < parts.len() && parse_u64(#[trigger] parts[i]) is None,
    decreases parts.len(),
{
    if parts.len() > 0 {
        let rest = parts.drop_last();
        lemma_numbers(rest);
        if let Some(v) = numbers(parts) {
            assert forall|i: int| 0 <= i < parts.len() implies parse_u64(#[trigger] parts[i])
                == Some(v[i]) by {
                if i < rest.len() {
                    assert(rest[i] == parts[i]);
                }
            }
        } else if numbers(rest) is None {
            let i = choose|i: int| 0 <= i < rest.len() && parse_u64(#[trigger] rest[i]) is None;
            assert(parts[i] == rest[i]);
        } else {
            assert(parse_u64(parts[parts.len() - 1]) is None);
        }
    }
}

/// Whether a version has the greater number at a place up to which it is the same as another, or
/// goes on there while the other ends.
pub open spec fn wins_at(a: Seq<u64>, b: Seq<u64>, at: int) -> bool {
    &&& 0 <= at < a.len()
    &&& at <= b.len()
    &&& at < b.len() ==> a[at] > b[at]
    &&& forall|j: int| 0 <= j < at ==> #[trigger] a[j] == b[j]
}

/// A version is higher than another exactly where it has the greater number at the first place at
/// which they differ, or goes on where the other ends.
pub proof fn versions_are_held_against_each_other(a: Seq<u64>, b: Seq<u64>)
    ensures
        higher(a, b) <==> exists|at: int| wins_at(a, b, at),
    decreases a.len(),
{
    if a.len() > 0 {
        if b.len() == 0 || a[0] > b[0] {
            assert(wins_at(a, b, 0));
        } else if a[0] < b[0] {
            assert forall|at: int| !wins_at(a, b, at) by {
                if wins_at(a, b, at) && at > 0 {
                    assert(a[0] == b[0]);
                }
            }
        } else {
            let x = a.skip(1);
            let y = b.skip(1);
            versions_are_held_against_each_other(x, y);
            if higher(x, y) {
                let at = choose|at: int| wins_at(x, y, at);
                assert forall|j: int| 0 <= j < at + 1 implies #[trigger] a[j] == b[j] by {
                    if j > 0 {
                        assert(x[j - 1] == y[j - 1]);
                    }
                }
                assert(wins_at(a, b, at + 1));
            }
            if exists|at: int| wins_at(a, b, at) {
                let at = choose|at: int| wins_at(a, b, at);
                assert(at > 0);
                assert forall|j: int| 0 <= j < at - 1 implies #[trigger] x[j] == y[j] by {
                    assert(a[j + 1] == b[j + 1]);
                }
                assert(wins_at(x, y, at - 1));
            }
        }
    }
}

/// The tag that is picked is one of those given, names a version, and no other names a higher one;
/// of equal versions the first is picked. Where none names a version, none is picked.
pub proof fn highest_version_is_picked(tags: &Vec<String>, r: Option<String>)
    requires
        call_ensures(pick_latest_semver, (tags,), r),
    ensures
        match r {
            Some(tag) => exists|k: int|
                {
                    &&& 0 <= k < tags@.len()
                    &&& (#[trigger] tags@[k])@ == tag@
                    &&& version(tag@) is Some
                    &&& forall|i: int|
                        0 <= i < tags@.len() && version((#[trigger] tags@[i])@) is Some ==> !higher(
                            version(tags@[i]@)->0,
                            version(tag@)->0,
                        ) && (i < k ==> higher(version(tag@)->0, version(tags@[i]@)->0))
                },
            None => forall|i: int|
                0 <= i < tags@.len() ==> version((#[trigger] tags@[i])@) is None,
        },
{
    let all = views(tags@);
    latest_is_highest(all);
    assert forall|i: int| 0 <= i < tags@.len() implies all[i] == (#[trigger] tags@[i])@ by {}
    if let Some(tag) = r {
        let k = lemma_latest_at(all);
        assert(tags@[k]@ == tag@);
        assert forall|i: int|
            0 <= i < tags@.len() && version((#[trigger] tags@[i])@) is Some implies !higher(
            version(tags@[i]@)->0,
            version(tag@)->0,
        ) && (i < k ==> higher(version(tag@)->0, version(tags@[i]@)->0)) by {
            assert(all[i] == tags@[i]@);
        }
    }
}

proof fn lemma_latest_at(tags: Seq<Seq<char>>) -> (k: int)
    requires
        latest(tags) is Some,
    ensures
        0 <= k < tags.len(),
        tags[k] == latest(tags)->0,
        version(tags[k]) is Some,
        forall|i: int|
            0 <= i < k && version(#[trigger] tags[i]) is Some ==> higher(
                version(tags[k])->0,
                version(tags[i])->0,
            ),
    decreases tags.len(),
{
    let rest = tags.drop_last();
    let last = tags.len() - 1;
    latest_is_highest(tags);
    latest_is_highest(rest);
    if latest(rest) is Some && latest(rest) == latest(tags) && (version(tags.last()) is None
        || !higher(version(tags.last())->0, version(latest(rest)->0)->0)) {
        let k = lemma_latest_at(rest);
        assert(tags[k] == rest[k]);
        assert forall|i: int| 0 <= i < k && version(#[trigger] tags[i]) is Some implies higher(
            version(tags[k])->0,
            version(tags[i])->0,
        ) by {
            assert(rest[i] == tags[i]);
        }
        k
    } else {
        assert(latest(tags) == Some(tags[last]));
        assert forall|i: int| 0 <= i < last && version(#[trigger] tags[i]) is Some implies higher(
            version(tags[last])->0,
            version(tags[i])->0,
        ) by {
            assert(rest[i] == tags[i]);
            assert(latest(rest) is Some);
            let old = version(latest(rest)->0)->0;
            let new = version(tags[last])->0;
            assert(!higher(version(rest[i])->0, old));
            assert(higher(new, old));
            lemma_higher_order(new, old, version(tags[i])->0);
        }
        last
    }
}

proof fn lemma_repinned_once(template: Seq<char>, pins: Seq<PinView>)
    requires
        pins.len() > 0,
        forall|i: int| 0 <= i < pins.len() ==> (#[trigger] pins[i]).repo == pins[0].repo,
        forall|i: int|
            0 <= i < pins.len() ==> image_ref(
                (#[trigger] pins[i]).repo,
                pins[i].tag,
                pins[i].digest,
            ) is Ok,
    ensures
        repinned(template, pins) == Ok::<Seq<char>, ErrorView>(
            retagged(
                template,
                "image: "@ + pins[0].repo + ":"@,
                pins[0].tag + "@"@ + pins[0].digest,
            ),
        ),
    decreases pins.len(),
{
    let rest = pins.drop_last();
    let last = pins[pins.len() - 1];
    assert(last == pins.last());
    if rest.len() == 0 {
        assert(rest =~= Seq::empty());
        assert(!same_repo_in(rest, last));
        assert(pins[0] == last);
        assert(repinned(template, rest) == Ok::<Seq<char>, ErrorView>(template));
    } else {
        assert forall|i: int| 0 <= i < rest.len() implies rest[i] == pins[i] by {}
        assert forall|i: int| 0 <= i < rest.len() implies (#[trigger] rest[i]).repo
            == rest[0].repo by {
            assert(rest[i] == pins[i]);
        }
        assert forall|i: int| 0 <= i < rest.len() implies image_ref(
            (#[trigger] rest[i]).repo,
            rest[i].tag,
            rest[i].digest,
        ) is Ok by {
            assert(rest[i] == pins[i]);
        }
        lemma_repinned_once(template, rest);
        assert(rest[0].repo == last.repo);
        assert(same_repo_in(rest, last));
    }
}

/// Where all pins are of one repository, every line of the template that names an image of it gets
/// the tag and the digest of the first pin in place of its tag, and all else stays: the template
/// and the result are the same pieces between `image: repository:`, and behind each the result has
/// the new tag and digest where the template has a tag.
pub proof fn every_image_gets_the_new_pin(
    template: &str,
    pins: &Vec<ImagePin>,
    r: Result<String, RustmoteError>,
)
    requires
        call_ensures(repin_compose, (template, pins), r),
        pins@.len() > 0,
        forall|i: int| 0 <= i < pins@.len() ==> (#[trigger] pins@[i]).repo@ == pins@[0].repo@,
        forall|i: int|
            0 <= i < pins@.len() ==> image_ref(
                (#[trigger] pins@[i]).repo@,
                pins@[i].tag@,
                pins@[i].digest@,
            ) is Ok,
        begin_with_tags(pieces(template@, "image: "@ + pins@[0].repo@ + ":"@)),
    ensures
        ({
            let head = "image: "@ + pins@[0].repo@ + ":"@;
            let between = pieces(template@, head);
            let pinned = pins@[0].tag@ + "@"@ + pins@[0].digest@;
            &&& template@ == join(between, head)
            &&& r matches Ok(text) && text@ == join(
                Seq::new(
                    between.len(),
                    |i: int|
                        if i == 0 {
                            between[0]
                        } else {
                            pinned + between[i].skip(tag_len(between[i]) as int)
                        },
                ),
                head,
            )
        }),
{
    let all = views(pins@);
    let head = "image: "@ + pins@[0].repo@ + ":"@;
    let pinned = pins@[0].tag@ + "@"@ + pins@[0].digest@;
    let between = pieces(template@, head);
    assert forall|i: int| 0 <= i < all.len() implies (#[trigger] all[i]).repo == all[0].repo
        && image_ref(all[i].repo, all[i].tag, all[i].digest) is Ok by {
        assert(all[i] == pins@[i]@);
    }
    lemma_repinned_once(template@, all);
    reveal_strlit("image: ");
    every_image_line_is_repinned(template@, head, pinned);
    assert(with_versions(between, pinned) =~= Seq::new(
        between.len(),
        |i: int|
            if i == 0 {
                between[0]
            } else {
                pinned + between[i].skip(tag_len(between[i]) as int)
            },
    ));
}

/// A compose file is made for pins exactly where each of them is well-formed; else the failure is
/// that of the first that is not.
pub proof fn malformed_pins_are_refused(template: Seq<char>, pins: Seq<PinView>)
    ensures
        repinned(template, pins) is Ok <==> forall|i: int|
            0 <= i < pins.len() ==> image_ref(
                (#[trigger] pins[i]).repo,
                pins[i].tag,
                pins[i].digest,
            ) is Ok,
        repinned(template, pins) matches Err(e) ==> exists|i: int|
            {
                &&& 0 <= i < pins.len()
                &&& image_ref((#[trigger] pins[i]).repo, pins[i].tag, pins[i].digest) == Err::<
                    Seq<char>,
                    ErrorView,
                >(e)
            },
        rendered(template, pins) is Ok <==> forall|i: int|
            0 <= i < pins.len() ==> image_ref(
                (#[trigger] pins[i]).repo,
                pins[i].tag,
                pins[i].digest,
            ) is Ok,
    decreases pins.len(),
{
    if pins.len() > 0 {
        let rest = pins.drop_last();
        let last = pins.last();
        malformed_pins_are_refused(template, rest);
        assert(pins[pins.len() - 1] == last);
        assert forall|i: int| 0 <= i < rest.len() implies rest[i] == pins[i] by {}
        if repinned(template, rest) is Err {
            let i = choose|i: int|
                {
                    &&& 0 <= i < rest.len()
                    &&& image_ref((#[trigger] rest[i]).repo, rest[i].tag, rest[i].digest) == Err::<
                        Seq<char>,
                        ErrorView,
                    >(repinned(template, rest)->Err_0)
                };
            assert(pins[i] == rest[i]);
        } else {
            assert forall|i: int| 0 <= i < rest.len() implies image_ref(
                (#[trigger] pins[i]).repo,
                pins[i].tag,
                pins[i].digest,
            ) is Ok by {
                assert(rest[i] == pins[i]);
            }
            if same_image_in(rest, last) {
                let i = choose|i: int|
                    0 <= i < rest.len() && (#[trigger] rest[i]).repo == last.repo && rest[i].tag
                        == last.tag && rest[i].digest == last.digest;
                assert(pins[i] == rest[i]);
            }
        }
    }
}

} // verus!
