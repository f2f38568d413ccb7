//! What the operations on a relay ask for and report, told from the replies that they got.
use crate::error::{ErrorView, RustmoteError};
use crate::relay_lifecycle::backups::expired_in;
use crate::relay_lifecycle::bootstrap::{
    bootstrap_begin, bootstrap_ok, bootstrap_pins, bootstrap_step, bootstrap_wait, Bootstrap,
    BootstrapOptionsView, BootstrapPhase, BootstrapReportView, BootstrapStep, BootstrapView,
};
use crate::relay_lifecycle::check::{
    any_newer, check_begin, check_step, check_wait, is_newer, CheckPhase, CheckStep, CheckView,
    ImageUpdateView,
};
use crate::relay_lifecycle::commands::{
    cat_file_command, compose_config_command, compose_ps_json_command, list_backups_command,
    remove_tree_command, tcp_probe_command, test_dir_exists_command, test_file_exists_command,
    write_file_command,
};
use crate::relay_lifecycle::compose::{latest, repinned};
use crate::relay_lifecycle::containers::{containers_of, ContainerView};
use crate::relay_lifecycle::health::{
    health_step, health_wait, HealthCheck, HealthPhase, HealthStep,
};
use crate::relay_lifecycle::history::bootstrap_from_begin;
use crate::relay_lifecycle::laws::{
    bootstrap_answered, check_after, check_answered, going_back, status_after, status_answered,
    update_answered, update_from_begin,
};
use crate::relay_lifecycle::load::{load_begin, load_step, LoadPhase, LoadStep, LoadView, StateLoad};
use crate::relay_lifecycle::os_release::{os_in, OsKind};
use crate::relay_lifecycle::paths::{
    backup_dir_of, backups_path_of, compose_path_of, key_path_of, state_path_of,
};
use crate::relay_lifecycle::state::{updated_state, ImagePin, PinView, StateView};
use crate::relay_lifecycle::status::{status_step, status_wait, StatusPhase, StatusStep, StatusView};
use crate::relay_lifecycle::step::{all_built, fits, issue, Action, Reply, ReplyView, Step, Wait};
use crate::relay_lifecycle::update::{
    new_pins, update_begin, update_checked, update_loaded, update_ok, update_step, update_wait,
    Update, UpdateOptionsView, UpdatePhase, UpdateStep, UpdateView,
};
use crate::session::ExecOutputView;
use crate::text::{trim, utf8_lossy};
use crate::time::{TimeSpan, Timestamp};
use vstd::prelude::*;
use vstd::utf8::encode_utf8;

verus! {

// ---------------------------------------------------------------------------------------------
// What was told
// ---------------------------------------------------------------------------------------------

/// The records among some replies, in their order.
pub open spec fn records_told(replies: Seq<ReplyView>) -> Seq<StateView>
    decreases replies.len(),
{
    if replies.len() == 0 {
        seq![]
    } else {
        match replies.last() {
            Reply::State(state) => records_told(replies.drop_last()).push(state),
            _ => records_told(replies.drop_last()),
        }
    }
}

/// The lists of tags among some replies, in their order.
pub open spec fn tags_told(replies: Seq<ReplyView>) -> Seq<Seq<Seq<char>>>
    decreases replies.len(),
{
    if replies.len() == 0 {
        seq![]
    } else {
        match replies.last() {
            Reply::Tags(tags) => tags_told(replies.drop_last()).push(tags),
            _ => tags_told(replies.drop_last()),
        }
    }
}

/// The digests among some replies, in their order.
pub open spec fn digests_told(replies: Seq<ReplyView>) -> Seq<Seq<char>>
    decreases replies.len(),
{
    if replies.len() == 0 {
        seq![]
    } else {
        match replies.last() {
            Reply::Digest(digest) => digests_told(replies.drop_last()).push(digest),
            _ => digests_told(replies.drop_last()),
        }
    }
}

/// The times of day among some replies, in their order.
pub open spec fn clocks_told(replies: Seq<ReplyView>) -> Seq<Timestamp>
    decreases replies.len(),
{
    if replies.len() == 0 {
        seq![]
    } else {
        match replies.last() {
            Reply::Clock(at) => clocks_told(replies.drop_last()).push(at),
            _ => clocks_told(replies.drop_last()),
        }
    }
}

/// What commands gave, among some replies, in their order.
pub open spec fn outputs_told(replies: Seq<ReplyView>) -> Seq<ExecOutputView>
    decreases replies.len(),
{
    if replies.len() == 0 {
        seq![]
    } else {
        match replies.last() {
            Reply::Output(out) => outputs_told(replies.drop_last()).push(out),
            _ => outputs_told(replies.drop_last()),
        }
    }
}

// ---------------------------------------------------------------------------------------------
// Looking for newer images
// ---------------------------------------------------------------------------------------------

/// The tag to which an image is held: the latest of those that the registry has, or the one that
/// is pinned where none of those names a version.
pub open spec fn tag_to_take(tags: Seq<Seq<char>>, pinned: Seq<char>) -> Seq<char> {
    match latest(tags) {
        Some(tag) => tag,
        None => pinned,
    }
}

/// Whether images are those of a record, one by one from the first, beside what the registry told
/// of each.
pub open spec fn looked_up(
    record: StateView,
    tags: Seq<Seq<Seq<char>>>,
    digests: Seq<Seq<char>>,
    images: Seq<ImageUpdateView>,
) -> bool {
    &&& images.len() <= record.images.len()
    &&& images.len() <= tags.len()
    &&& images.len() <= digests.len()
    &&& forall|i: int|
        0 <= i < images.len() ==> {
            &&& (#[trigger] images[i]).service == record.images[i].service
            &&& images[i].repo == record.images[i].repo
            &&& images[i].current_tag == record.images[i].tag
            &&& images[i].current_digest == record.images[i].digest
            &&& images[i].latest_tag == tag_to_take(tags[i], record.images[i].tag)
            &&& images[i].latest_digest == digests[i]
        }
}

/// What a check knows and asks for after some replies.
pub open spec fn check_told(
    install_path: Seq<char>,
    replies: Seq<ReplyView>,
    m: CheckView,
    step: CheckStep,
) -> bool {
    let records = records_told(replies);
    let tags = tags_told(replies);
    let digests = digests_told(replies);
    let count = digests.len() as int;
    &&& m.load.install_path == install_path
    &&& clocks_told(replies) == Seq::<Timestamp>::empty()
    &&& match m.phase {
        CheckPhase::Load => {
            &&& records.len() == 0 && tags.len() == 0 && digests.len() == 0
            &&& m.images.len() == 0
            &&& m.load.phase != LoadPhase::Over
        },
        CheckPhase::Tags => {
            &&& records.len() == 1 && m.pins == records[0].images
            &&& tags.len() == count && m.images.len() == count && count < records[0].images.len()
            &&& looked_up(records[0], tags, digests, m.images)
            &&& step == CheckStep::Next(Action::ListTags(records[0].images[count].repo))
        },
        CheckPhase::Digest => {
            &&& records.len() == 1 && m.pins == records[0].images
            &&& tags.len() == count + 1 && m.images.len() == count && count
                < records[0].images.len()
            &&& looked_up(records[0], tags, digests, m.images)
            &&& m.latest_tag == tag_to_take(tags[count], records[0].images[count].tag)
            &&& step == CheckStep::Next(
                Action::ResolveDigest {
                    repo: records[0].images[count].repo,
                    tag: tag_to_take(tags[count], records[0].images[count].tag),
                },
            )
        },
        CheckPhase::Over => step matches Step::Done(report) ==> {
            &&& records.len() == 1
            &&& tags.len() == records[0].images.len() && count == records[0].images.len()
            &&& report.install_path == install_path
            &&& report.images.len() == records[0].images.len()
            &&& looked_up(records[0], tags, digests, report.images)
        },
    }
    &&& step is Next <==> m.phase != CheckPhase::Over
}

proof fn lemma_check_told_step(
    install_path: Seq<char>,
    replies: Seq<ReplyView>,
    m: CheckView,
    step: CheckStep,
    reply: ReplyView,
)
    requires
        check_told(install_path, replies, m, step),
        fits(check_wait(m), reply),
    ensures
        check_told(
            install_path,
            replies.push(reply),
            check_step(m, reply).0,
            check_step(m, reply).1,
        ),
{
    let all = replies.push(reply);
    assert(all.drop_last() =~= replies);
    assert(all.last() == reply);
    let records = records_told(replies);
    let tags = tags_told(replies);
    let digests = digests_told(replies);
    let (next, asked) = check_step(m, reply);
    if m.phase == CheckPhase::Digest && reply is Digest {
        let image = next.images.last();
        assert(next.images.drop_last() =~= m.images);
        assert forall|i: int| 0 <= i < next.images.len() implies {
            &&& (#[trigger] next.images[i]).service == records[0].images[i].service
            &&& next.images[i].repo == records[0].images[i].repo
            &&& next.images[i].current_tag == records[0].images[i].tag
            &&& next.images[i].current_digest == records[0].images[i].digest
            &&& next.images[i].latest_tag == tag_to_take(tags[i], records[0].images[i].tag)
            &&& next.images[i].latest_digest == digests_told(all)[i]
        } by {
            if i < m.images.len() {
                assert(next.images[i] == m.images[i]);
            }
        }
    }
}

proof fn lemma_check_told(install_path: Seq<char>, replies: Seq<ReplyView>)
    requires
        check_answered(install_path, replies),
    ensures
        check_told(
            install_path,
            replies,
            check_after(install_path, replies).0,
            check_after(install_path, replies).1,
        ),
    decreases replies.len(),
{
    if replies.len() > 0 {
        let before = replies.drop_last();
        lemma_check_told(install_path, before);
        assert(before.push(replies.last()) =~= replies);
        lemma_check_told_step(
            install_path,
            before,
            check_after(install_path, before).0,
            check_after(install_path, before).1,
            replies.last(),
        );
    }
}

/// A check that comes to its end has read one record, and reports each image of it, in the record's
/// order: the service, the repository, the tag and the digest that the record pins, beside the
/// latest tag and the digest that the registry gave for that image.
pub proof fn checks_report_each_image(install_path: Seq<char>, replies: Seq<ReplyView>)
    requires
        check_answered(install_path, replies),
        check_after(install_path, replies).1 is Done,
    ensures
        ({
            let report = check_after(install_path, replies).1->Done_0;
            let records = records_told(replies);
            let tags = tags_told(replies);
            let digests = digests_told(replies);
            &&& records.len() == 1
            &&& report.install_path == install_path
            &&& report.images.len() == records[0].images.len()
            &&& tags.len() == records[0].images.len()
            &&& digests.len() == records[0].images.len()
            &&& forall|i: int|
                0 <= i < records[0].images.len() ==> {
                    let image = #[trigger] report.images[i];
                    let pin = records[0].images[i];
                    &&& image.service == pin.service
                    &&& image.repo == pin.repo
                    &&& image.current_tag == pin.tag
                    &&& image.current_digest == pin.digest
                    &&& image.latest_digest == digests[i]
                    &&& latest(tags[i]) matches Some(tag) ==> image.latest_tag == tag
                    &&& latest(tags[i]) is None ==> image.latest_tag == pin.tag
                }
        }),
{
    lemma_check_told(install_path, replies);
}

/// While a check asks the registry, it asks for the first image of the record whose digest it does
/// not know: first for the tags of its repository, then for the digest of the latest of them.
pub proof fn checks_ask_for_one_image_after_the_other(
    install_path: Seq<char>,
    replies: Seq<ReplyView>,
)
    requires
        check_answered(install_path, replies),
        check_after(install_path, replies).1 is Next,
        records_told(replies).len() > 0,
    ensures
        ({
            let step = check_after(install_path, replies).1;
            let record = records_told(replies)[0];
            let tags = tags_told(replies);
            let at = digests_told(replies).len() as int;
            let pin = record.images[at];
            &&& at < record.images.len()
            &&& tags.len() == at ==> step == CheckStep::Next(Action::ListTags(pin.repo))
            &&& tags.len() != at ==> {
                &&& tags.len() == at + 1
                &&& step matches Step::Next(Action::ResolveDigest { repo, tag })
                &&& repo == pin.repo
                &&& match latest(tags[at]) {
                    Some(t) => tag == t,
                    None => tag == pin.tag,
                }
            }
        }),
{
    lemma_check_told(install_path, replies);
}

// ---------------------------------------------------------------------------------------------
// How a relay is doing
// ---------------------------------------------------------------------------------------------

/// What an inquiry knows and asks for after some replies.
pub open spec fn status_told(
    install_path: Seq<char>,
    replies: Seq<ReplyView>,
    m: StatusView,
    step: StatusStep,
) -> bool {
    let listed = replies[3]->Output_0;
    &&& m.load.install_path == install_path
    &&& match m.phase {
        StatusPhase::Load => {
            &&& m.load.phase == LoadPhase::Probe ==> replies.len() == 0
            &&& m.load.phase == LoadPhase::Read ==> replies.len() == 1
            &&& m.load.phase == LoadPhase::Decode ==> replies.len() == 2
            &&& m.load.phase != LoadPhase::Over
        },
        StatusPhase::Containers => {
            &&& replies.len() == 3
            &&& replies[2] matches Reply::State(state) && m.state == Some(state)
            &&& compose_ps_json_command(install_path) matches Ok(command) && step
                == StatusStep::Next(Action::Exec(command))
        },
        StatusPhase::Key => {
            &&& replies.len() == 4
            &&& replies[2] matches Reply::State(state) && m.state == Some(state)
            &&& replies[3] is Output
            &&& listed.exit_code == 0 ==> m.containers == containers_of(utf8_lossy(listed.stdout))
            &&& listed.exit_code != 0 ==> m.containers.len() == 0
            &&& cat_file_command(key_path_of(install_path)) matches Ok(command) && step
                == StatusStep::Next(Action::Exec(command))
        },
        StatusPhase::Over => step matches Step::Done(report) ==> {
            &&& replies.len() == 4 || replies.len() == 5
            &&& replies.len() == 4 ==> cat_file_command(key_path_of(install_path)) is Err
            &&& replies[2] matches Reply::State(state) && report.state == state
            &&& replies[3] is Output
            &&& report.install_path == install_path
            &&& listed.exit_code == 0 ==> report.containers == containers_of(
                utf8_lossy(listed.stdout),
            )
            &&& listed.exit_code != 0 ==> report.containers.len() == 0
            &&& match report.relay_public_key {
                Some(key) => replies.len() == 5 && {
                    &&& replies[4] matches Reply::Output(out)
                    &&& out.exit_code == 0
                    &&& key == trim(utf8_lossy(out.stdout))
                },
                None => replies.len() == 5 ==> !(replies[4] matches Reply::Output(out)
                    && out.exit_code == 0),
            }
        },
    }
    &&& step is Next ==> m.phase != StatusPhase::Over
}

proof fn lemma_status_told(install_path: Seq<char>, replies: Seq<ReplyView>)
    requires
        status_answered(install_path, replies),
    ensures
        status_told(
            install_path,
            replies,
            status_after(install_path, replies).0,
            status_after(install_path, replies).1,
        ),
    decreases replies.len(),
{
    if replies.len() > 0 {
        lemma_status_told(install_path, replies.drop_last());
    }
}

/// An inquiry that comes to its end was told the record, then the listing of the containers, then
/// the public key. It reports the record as it was told; the containers of the listing, or none
/// where they could not be listed; and the text of the key's file without the white space around
/// it, or no key where the file could not be read.
pub proof fn inquiries_report_what_was_told(install_path: Seq<char>, replies: Seq<ReplyView>)
    requires
        status_answered(install_path, replies),
        status_after(install_path, replies).1 is Done,
    ensures
        ({
            let report = status_after(install_path, replies).1->Done_0;
            &&& report.install_path == install_path
            &&& replies.len() >= 4
            &&& replies[2] == ReplyView::State(report.state)
            &&& replies[3] matches Reply::Output(listed) && {
                &&& listed.exit_code == 0 ==> report.containers == containers_of(
                    utf8_lossy(listed.stdout),
                )
                &&& listed.exit_code != 0 ==> report.containers == Seq::<ContainerView>::empty()
            }
            &&& replies.len() == 5 || cat_file_command(key_path_of(install_path)) is Err
            &&& report.relay_public_key matches Some(key) ==> replies.len() == 5 && {
                &&& replies[4] matches Reply::Output(out)
                &&& out.exit_code == 0
                &&& key == trim(utf8_lossy(out.stdout))
            }
            &&& report.relay_public_key is None && replies.len() == 5 ==> {
                replies[4] matches Reply::Output(out) ==> out.exit_code != 0
            }
        }),
{
    lemma_status_told(install_path, replies);
}

/// An inquiry looks whether the record is there, reads it, lists the containers and reads the
/// public key, in this order. A relay whose record is not there is not installed. Once the
/// containers were listed or not, the inquiry does not fail any more.
pub proof fn inquiries_ask_in_order(install_path: Seq<char>, replies: Seq<ReplyView>)
    requires
        status_answered(install_path, replies),
    ensures
        ({
            let step = status_after(install_path, replies).1;
            let path = state_path_of(install_path);
            &&& step matches Step::Next(Action::Exec(command)) ==> {
                &&& replies.len() == 0 ==> test_file_exists_command(path) == Ok::<_, ErrorView>(
                    command,
                )
                &&& replies.len() == 1 ==> cat_file_command(path) == Ok::<_, ErrorView>(command)
                &&& replies.len() == 3 ==> compose_ps_json_command(install_path) == Ok::<
                    _,
                    ErrorView,
                >(command)
                &&& replies.len() == 4 ==> cat_file_command(key_path_of(install_path)) == Ok::<
                    _,
                    ErrorView,
                >(command)
            }
            &&& step matches Step::Next(Action::DecodeState { text, path: at }) ==> {
                &&& replies.len() == 2
                &&& at == path
                &&& replies[1] matches Reply::Output(out) && text == utf8_lossy(out.stdout)
            }
            &&& replies.len() == 1 && replies[0] is Output && replies[0]->Output_0.exit_code != 0
                ==> step == StatusStep::Failed(RustmoteError::RelayNotInstalled(install_path))
            &&& replies.len() >= 4 && replies[3] is Output ==> !(step is Failed)
        }),
{
    lemma_status_told(install_path, replies);
    if replies.len() > 0 {
        lemma_status_told(install_path, replies.drop_last());
    }
}

// ---------------------------------------------------------------------------------------------
// Health
// ---------------------------------------------------------------------------------------------

/// Where a health check that stands somewhere stands after some more replies, the first of which
/// leads on from there.
pub open spec fn health_after(h: HealthCheck, replies: Seq<ReplyView>) -> (HealthCheck, HealthStep)
    recommends
        replies.len() > 0,
    decreases replies.len(),
{
    if replies.len() <= 1 {
        health_step(h, replies[0])
    } else {
        health_step(health_after(h, replies.drop_last()).0, replies.last())
    }
}

/// Whether each reply answers what the health check waits for.
pub open spec fn health_answered(h: HealthCheck, replies: Seq<ReplyView>) -> bool
    decreases replies.len(),
{
    if replies.len() == 0 {
        true
    } else if replies.len() == 1 {
        fits(health_wait(h), replies[0])
    } else {
        health_answered(h, replies.drop_last()) && fits(
            health_wait(health_after(h, replies.drop_last()).0),
            replies.last(),
        )
    }
}

spec fn health_told(
    timeout: TimeSpan,
    interval: TimeSpan,
    start: u64,
    replies: Seq<ReplyView>,
    h: HealthCheck,
    step: HealthStep,
) -> bool {
    &&& h.timeout == timeout
    &&& h.interval == interval
    &&& h.deadline == start + timeout.spec_nanos()
    &&& match h.phase {
        HealthPhase::Begin => false,
        HealthPhase::Hbbs => {
            &&& replies.last() is Timer && replies.len() == 1 || replies.last() is Rested
            &&& step == HealthStep::Next(Action::Exec(tcp_probe_command(21_116)))
        },
        HealthPhase::Hbbr => {
            &&& replies.last() matches Reply::Output(out) && out.exit_code == 0
            &&& replies.len() > 1
            &&& replies[replies.len() - 2] is Timer || replies[replies.len() - 2] is Rested
            &&& step == HealthStep::Next(Action::Exec(tcp_probe_command(21_117)))
        },
        HealthPhase::Late => {
            &&& replies.last() matches Reply::Output(out) && out.exit_code != 0
            &&& step == HealthStep::Next(Action::ReadTimer)
        },
        HealthPhase::Rest => {
            &&& replies.last() matches Reply::Timer(t) && t < start + timeout.spec_nanos()
            &&& replies.len() > 1
            &&& step == HealthStep::Next(Action::Sleep(interval))
        },
        HealthPhase::Over => match step {
            Step::Done(_) => {
                &&& replies.len() > 2
                &&& replies.last() matches Reply::Output(out) && out.exit_code == 0
                &&& replies[replies.len() - 2] matches Reply::Output(out) && out.exit_code == 0
            },
            Step::Failed(e) => replies.last() == ReplyView::Failed(e) || {
                &&& e == RustmoteError::<Seq<char>>::RelayHealthCheckFailed
                &&& replies.len() > 1
                &&& replies.last() matches Reply::Timer(t) && t >= start + timeout.spec_nanos()
            },
            Step::Next(_) => false,
        },
    }
}

proof fn lemma_health_told(h: HealthCheck, start: u64, replies: Seq<ReplyView>)
    requires
        h.phase == HealthPhase::Begin,
        health_answered(h, replies),
        replies.len() > 0,
        replies[0] == ReplyView::Timer(start),
    ensures
        health_told(
            h.timeout,
            h.interval,
            start,
            replies,
            health_after(h, replies).0,
            health_after(h, replies).1,
        ),
    decreases replies.len(),
{
    h.timeout.lemma_bound();
    if replies.len() > 1 {
        lemma_health_told(h, start, replies.drop_last());
    }
}

/// A health check that begins at a time fails for being late at no time before that time and the
/// timeout, and at every time from then on: a probe that failed before leads to a pause of the
/// interval, and after the pause the ports are probed again.
pub proof fn health_checks_keep_to_their_timeout(
    h: HealthCheck,
    start: u64,
    replies: Seq<ReplyView>,
)
    requires
        h.phase == HealthPhase::Begin,
        health_answered(h, replies),
        replies.len() > 0,
        replies[0] == ReplyView::Timer(start),
    ensures
        ({
            let step = health_after(h, replies).1;
            let late = start + h.timeout.spec_nanos();
            &&& replies.len() > 1 ==> {
                replies.last() matches Reply::Timer(t) ==> if t >= late {
                    step == HealthStep::Failed(RustmoteError::RelayHealthCheckFailed)
                } else {
                    step == HealthStep::Next(Action::Sleep(h.interval))
                }
            }
            &&& step matches Step::Failed(e) ==> replies.last() == ReplyView::Failed(e) || {
                &&& replies.len() > 1
                &&& replies.last() matches Reply::Timer(t) && t >= late
            }
            &&& replies.last() is Rested ==> step == HealthStep::Next(
                Action::Exec(tcp_probe_command(21_116)),
            )
            &&& replies.last() matches Reply::Output(out) ==> out.exit_code != 0 ==> step
                == HealthStep::Next(Action::ReadTimer)
        }),
{
    lemma_health_told(h, start, replies);
    if replies.len() > 1 {
        lemma_health_told(h, start, replies.drop_last());
    }
}

/// The deadline of a health check is set when it is told the time at its beginning: that time and
/// the timeout. No later reply moves it.
pub proof fn deadlines_are_set_once(
    h: &mut HealthCheck,
    reply: Reply,
    r: Step<Action, (), RustmoteError>,
)
    requires
        call_ensures(HealthCheck::step, (h, reply), r),
        fits(health_wait(*h), reply@),
    ensures
        reply is Timer && old(h).phase == HealthPhase::Begin ==> final(h).deadline
            == reply->Timer_0 + old(h).timeout.spec_nanos() && r is Next,
        old(h).phase != HealthPhase::Begin ==> final(h).deadline == old(h).deadline,
        reply is Timer && old(h).phase != HealthPhase::Begin ==> (r is Failed <==> reply->Timer_0
            >= old(h).deadline),
        final(h).timeout == old(h).timeout,
        final(h).interval == old(h).interval,
{
    h.timeout.lemma_bound();
}

/// A health check ends well only where the ports of both services took a connection in one round:
/// the last two commands that it asked for are the probe of the signalling service's port and that
/// of the relay service's, and both exited with status zero.
pub proof fn healthy_relays_answer_on_both_ports(
    h: HealthCheck,
    start: u64,
    replies: Seq<ReplyView>,
)
    requires
        h.phase == HealthPhase::Begin,
        health_answered(h, replies),
        replies.len() > 0,
        replies[0] == ReplyView::Timer(start),
        health_after(h, replies).1 is Done,
    ensures
        ({
            let count = replies.len();
            &&& count > 2
            &&& replies[count - 1] matches Reply::Output(out) && out.exit_code == 0
            &&& replies[count - 2] matches Reply::Output(out) && out.exit_code == 0
            &&& health_after(h, replies.take(count - 1)).1 == HealthStep::Next(
                Action::Exec(tcp_probe_command(21_117)),
            )
            &&& health_after(h, replies.take(count - 2)).1 == HealthStep::Next(
                Action::Exec(tcp_probe_command(21_116)),
            )
        }),
{
    lemma_health_told(h, start, replies);
    let one = replies.drop_last();
    assert(one =~= replies.take(replies.len() - 1));
    lemma_health_told(h, start, one);
    let two = one.drop_last();
    assert(two =~= replies.take(replies.len() - 2));
    lemma_health_told(h, start, two);
}

// ---------------------------------------------------------------------------------------------
// Updates
// ---------------------------------------------------------------------------------------------

/// Whether the registry gave another digest for an image than the record pins.
pub open spec fn some_digest_differs(record: StateView, digests: Seq<Seq<char>>) -> bool {
    exists|i: int|
        0 <= i < record.images.len() && digests[i] != (#[trigger] record.images[i]).digest
}

/// Whether a record is another one renewed at a time: how it was installed stays, the time is that
/// of its last update, and its images are those of the record that was looked at, in the same
/// order and for the same services, each at the tag and the digest that the registry gave.
pub open spec fn renewed_record(
    record: StateView,
    old: StateView,
    looked_at: StateView,
    tags: Seq<Seq<Seq<char>>>,
    digests: Seq<Seq<char>>,
    at: Timestamp,
) -> bool {
    &&& record.install.bootstrapped_at == old.install.bootstrapped_at
    &&& record.install.bootstrapped_by_rustmote_version
        == old.install.bootstrapped_by_rustmote_version
    &&& record.install.last_updated_at == Some(at)
    &&& record.images.len() == looked_at.images.len()
    &&& forall|i: int|
        0 <= i < looked_at.images.len() ==> {
            &&& (#[trigger] record.images[i]).service == looked_at.images[i].service
            &&& record.images[i].repo == looked_at.images[i].repo
            &&& record.images[i].tag == tag_to_take(tags[i], looked_at.images[i].tag)
            &&& record.images[i].digest == digests[i]
            &&& record.images[i].pinned_at == at
        }
}

/// What an update that has come further than to the look for newer images knows.
pub open spec fn update_looked(replies: Seq<ReplyView>, m: UpdateView) -> bool {
    let records = records_told(replies);
    let tags = tags_told(replies);
    let digests = digests_told(replies);
    &&& records.len() >= 1
    &&& tags.len() == records[0].images.len()
    &&& digests.len() == records[0].images.len()
    &&& m.images.len() == records[0].images.len()
    &&& looked_up(records[0], tags, digests, m.images)
    &&& some_digest_differs(records[0], digests)
}

/// What an update knows once it is told the time.
pub open spec fn update_timed(
    opts: UpdateOptionsView,
    replies: Seq<ReplyView>,
    m: UpdateView,
) -> bool {
    let clocks = clocks_told(replies);
    &&& update_looked(replies, m)
    &&& clocks.len() == 1
    &&& m.now == Some(clocks[0])
    &&& m.backup_dir == if opts.skip_backup {
        None
    } else {
        Some(backup_dir_of(opts.install_path, clocks[0].spec_stamp()))
    }
}

/// What an update knows once it has read the record that it replaces.
pub open spec fn update_renews(
    opts: UpdateOptionsView,
    replies: Seq<ReplyView>,
    m: UpdateView,
) -> bool {
    let records = records_told(replies);
    &&& update_timed(opts, replies, m)
    &&& records.len() == 2
    &&& m.old_state == Some(records[1])
    &&& m.new_state matches Some(state) && renewed_record(
        state,
        records[1],
        records[0],
        tags_told(replies),
        digests_told(replies),
        clocks_told(replies)[0],
    )
}

/// The old backups among those of a listing, at a time; none where they could not be listed.
pub open spec fn expired_of(listing: ExecOutputView, at: Timestamp) -> Seq<Seq<char>> {
    if listing.exit_code == 0 {
        expired_in(utf8_lossy(listing.stdout), at.spec_secs())
    } else {
        seq![]
    }
}

/// What an update knows and asks for after some replies.
pub open spec fn update_told(
    opts: UpdateOptionsView,
    replies: Seq<ReplyView>,
    m: UpdateView,
    step: UpdateStep,
) -> bool {
    let records = records_told(replies);
    let digests = digests_told(replies);
    let outputs = outputs_told(replies);
    &&& m.opts == opts
    &&& match m.phase {
        UpdatePhase::Check => {
            &&& step is Next
            &&& check_told(opts.install_path, replies, m.check, CheckStep::Next(step->Next_0))
            &&& m.backup_dir is None
        },
        UpdatePhase::Current => {
            &&& records.len() == 1 && digests.len() == records[0].images.len()
            &&& !some_digest_differs(records[0], digests)
            &&& m.load.phase != LoadPhase::Over
        },
        UpdatePhase::Clock => {
            &&& update_looked(replies, m) && records.len() == 1
            &&& clocks_told(replies).len() == 0
            &&& m.backup_dir is None
            &&& step == UpdateStep::Next(Action::ReadClock)
        },
        UpdatePhase::Backup | UpdatePhase::Snapshot => {
            update_timed(opts, replies, m) && records.len() == 1
        },
        UpdatePhase::Config => {
            &&& update_timed(opts, replies, m) && records.len() == 1
            &&& compose_config_command(opts.install_path) matches Ok(command) && step
                == UpdateStep::Next(Action::Exec(command))
        },
        UpdatePhase::List => {
            &&& update_renews(opts, replies, m)
            &&& list_backups_command(backups_path_of(opts.install_path)) matches Ok(command) && step
                == UpdateStep::Next(Action::Exec(command))
        },
        UpdatePhase::Load => {
            &&& update_timed(opts, replies, m) && records.len() == 1
            &&& m.load.phase != LoadPhase::Over
        },
        UpdatePhase::Write => {
            &&& update_renews(opts, replies, m)
            &&& repinned(opts.compose_template, m.new_state->0.images) matches Ok(compose) && {
                &&& write_file_command(
                    compose_path_of(opts.install_path),
                    encode_utf8(compose),
                ) matches Ok(command)
                &&& m.queue == seq![command]
                &&& step == UpdateStep::Next(Action::Exec(command))
            }
        },
        UpdatePhase::Encode => {
            &&& update_renews(opts, replies, m)
            &&& step == UpdateStep::Next(Action::EncodeState(m.new_state->0))
        },
        UpdatePhase::Recover => {
            &&& update_renews(opts, replies, m)
            &&& opts.skip_backup
            &&& step == UpdateStep::Next(Action::EncodeState(records[1]))
        },
        UpdatePhase::Remove => {
            &&& update_renews(opts, replies, m)
            &&& outputs.len() > m.removed
            &&& m.expired == expired_of(
                outputs[outputs.len() - 1 - m.removed],
                clocks_told(replies)[0],
            )
            &&& m.removed < m.expired.len()
            &&& remove_tree_command(m.expired[m.removed as int]) matches Ok(command) && step
                == UpdateStep::Next(Action::Exec(command))
        },
        UpdatePhase::Over => step matches Step::Done(report) ==> {
            &&& report.install_path == opts.install_path
            &&& !report.rolled_back
            &&& records.len() == 2
            &&& report.changed == some_digest_differs(records[0], digests)
            &&& !report.changed ==> {
                &&& report.new_state == records[1]
                &&& report.backup_dir is None
                &&& report.gc_deleted.len() == 0
            }
            &&& report.changed ==> {
                &&& update_timed(opts, replies, m)
                &&& report.backup_dir == m.backup_dir
                &&& renewed_record(
                    report.new_state,
                    records[1],
                    records[0],
                    tags_told(replies),
                    digests,
                    clocks_told(replies)[0],
                )
                &&& outputs.len() > report.gc_deleted.len()
                &&& report.gc_deleted == expired_of(
                    outputs[outputs.len() - 1 - report.gc_deleted.len()],
                    clocks_told(replies)[0],
                )
            }
        },
        _ => update_renews(opts, replies, m),
    }
    &&& step is Next ==> m.phase != UpdatePhase::Over
}

proof fn lemma_renewed_images(replies: Seq<ReplyView>, m: UpdateView, old: StateView, at: Timestamp)
    requires
        update_looked(replies, m),
    ensures
        renewed_record(
            updated_state(old, new_pins(m.images, at), at),
            old,
            records_told(replies)[0],
            tags_told(replies),
            digests_told(replies),
            at,
        ),
{
}

proof fn lemma_update_told_checked(
    opts: UpdateOptionsView,
    replies: Seq<ReplyView>,
    m: UpdateView,
    check: (CheckView, CheckStep),
)
    requires
        m.opts == opts,
        m.backup_dir is None,
        check_told(opts.install_path, replies, check.0, check.1),
    ensures
        ({
            let (next, step) = update_checked(m, check);
            update_told(opts, replies, next, step)
        }),
{
    if let Step::Done(report) = check.1 {
        let records = records_told(replies);
        let digests = digests_told(replies);
        if any_newer(report.images) {
            let i = choose|i: int|
                0 <= i < report.images.len() && is_newer(#[trigger] report.images[i]);
            assert(digests[i] != records[0].images[i].digest);
        } else {
            assert forall|i: int| 0 <= i < records[0].images.len() implies digests[i] == (
            #[trigger] records[0].images[i]).digest by {
                assert(!is_newer(report.images[i]));
            }
        }
    }
}

#[verifier::rlimit(40)]
proof fn lemma_update_told_loaded(
    opts: UpdateOptionsView,
    replies: Seq<ReplyView>,
    m: UpdateView,
    load: (LoadView, LoadStep),
)
    requires
        m.opts == opts,
        update_timed(opts, replies, m),
        records_told(replies).len() == if load.1 is Done {
            2int
        } else {
            1int
        },
        load.1 is Next ==> load.0.phase != LoadPhase::Over,
        load.1 matches Step::Done(state) ==> records_told(replies)[1] == state,
    ensures
        ({
            let (next, step) = update_loaded(m, load);
            update_told(opts, replies, next, step)
        }),
{
    if let Step::Done(state) = load.1 {
        let at = m.now->0;
        lemma_renewed_images(replies, m, state, at);
        let pins = new_pins(m.images, at);
        if let Ok(compose) = repinned(opts.compose_template, pins) {
            let commands = seq![
                write_file_command(compose_path_of(opts.install_path), encode_utf8(compose)),
            ];
            assert(commands.drop_last() =~= seq![]);
            assert(all_built(commands.drop_last()) == Ok::<Seq<Seq<char>>, ErrorView>(seq![]));
            if let Ok(command) = commands.last() {
                assert(Seq::<Seq<char>>::empty().push(command) =~= seq![command]);
            }
        }
    }
}

#[verifier::rlimit(40)]
proof fn lemma_update_told_step(
    opts: UpdateOptionsView,
    replies: Seq<ReplyView>,
    m: UpdateView,
    step: UpdateStep,
    reply: ReplyView,
)
    requires
        update_told(opts, replies, m, step),
        fits(update_wait(m), reply),
    ensures
        ({
            let (next, asked) = update_step(m, reply);
            update_told(opts, replies.push(reply), next, asked)
        }),
{
    let all = replies.push(reply);
    assert(all.drop_last() =~= replies);
    assert(all.last() == reply);
    match m.phase {
        UpdatePhase::Check => {
            lemma_check_told_step(
                opts.install_path,
                replies,
                m.check,
                CheckStep::Next(step->Next_0),
                reply,
            );
            lemma_update_told_checked(opts, all, m, check_step(m.check, reply));
        },
        UpdatePhase::Current => {},
        UpdatePhase::Clock => if let Reply::Clock(at) = reply {
            if opts.skip_backup {
                lemma_update_told_loaded(
                    opts,
                    all,
                    Update { now: Some(at), ..m },
                    load_begin(opts.install_path),
                );
            }
        },
        UpdatePhase::Config | UpdatePhase::Snapshot => if let Reply::Output(out) = reply {
            lemma_update_told_loaded(opts, all, m, load_begin(opts.install_path));
            lemma_update_told_loaded(
                opts,
                all,
                Update { queue: m.queue.skip(1), ..m },
                load_begin(opts.install_path),
            );
        },
        UpdatePhase::Load => {
            lemma_update_told_loaded(opts, all, m, load_step(m.load, reply));
        },
        _ => {},
    }
}

proof fn lemma_update_told(opts: UpdateOptionsView, health: HealthCheck, replies: Seq<ReplyView>)
    requires
        update_answered(update_begin(opts, health).0, replies),
    ensures
        update_told(
            opts,
            replies,
            update_from_begin(opts, health, replies).0,
            update_from_begin(opts, health, replies).1,
        ),
    decreases replies.len(),
{
    if replies.len() > 0 {
        let before = replies.drop_last();
        lemma_update_told(opts, health, before);
        if replies.len() == 1 {
            assert(before.len() == 0);
        }
        assert(before.push(replies.last()) =~= replies);
        lemma_update_told_step(
            opts,
            before,
            update_from_begin(opts, health, before).0,
            update_from_begin(opts, health, before).1,
            replies.last(),
        );
    } else if opts.assume_yes || opts.is_tty {
        lemma_check_told(opts.install_path, replies);
        let m = Update {
            phase: UpdatePhase::Over,
            check: check_begin(opts.install_path).0,
            load: StateLoad { install_path: opts.install_path, phase: LoadPhase::Over },
            ..update_begin(opts, health).0
        };
        lemma_update_told_checked(opts, replies, m, check_begin(opts.install_path));
    }
}

/// An update that comes to its end has changed the relay exactly where the registry gave another
/// digest for one of its images than the record pins. The new record then keeps the services: its
/// pins are, one by one, for the service and of the repository of those of the record that was
/// looked at, with the latest tag and the digest that the registry gave for that image and the time
/// of the update; how the relay was installed stays as it was. Where nothing was newer, the record
/// is reported as it is.
#[verifier::rlimit(40)]
pub proof fn updates_keep_the_services(
    opts: UpdateOptionsView,
    health: HealthCheck,
    replies: Seq<ReplyView>,
)
    requires
        update_answered(update_begin(opts, health).0, replies),
        update_from_begin(opts, health, replies).1 is Done,
    ensures
        ({
            let report = update_from_begin(opts, health, replies).1->Done_0;
            let records = records_told(replies);
            let tags = tags_told(replies);
            let digests = digests_told(replies);
            let clocks = clocks_told(replies);
            &&& report.install_path == opts.install_path
            &&& records.len() == 2
            &&& report.changed <==> exists|i: int|
                0 <= i < records[0].images.len() && digests[i] != (
                #[trigger] records[0].images[i]).digest
            &&& !report.changed ==> report.new_state == records[1]
            &&& report.changed ==> {
                &&& clocks.len() == 1
                &&& report.new_state.images.len() == records[0].images.len()
                &&& digests.len() == records[0].images.len()
                &&& tags.len() == records[0].images.len()
                &&& forall|i: int|
                    0 <= i < records[0].images.len() ==> {
                        let pin = #[trigger] report.new_state.images[i];
                        &&& pin.service == records[0].images[i].service
                        &&& pin.repo == records[0].images[i].repo
                        &&& pin.digest == digests[i]
                        &&& pin.pinned_at == clocks[0]
                        &&& latest(tags[i]) matches Some(tag) ==> pin.tag == tag
                        &&& latest(tags[i]) is None ==> pin.tag == records[0].images[i].tag
                    }
                &&& report.new_state.install.last_updated_at == Some(clocks[0])
                &&& report.new_state.install.bootstrapped_at == records[1].install.bootstrapped_at
                &&& report.new_state.install.bootstrapped_by_rustmote_version
                    == records[1].install.bootstrapped_by_rustmote_version
            }
        }),
{
    lemma_update_told(opts, health, replies);
}

/// The record that an update has written as text is the one that it reports, and the compose file
/// that it writes is the template pinned to the images of that record. Where it goes back without a
/// backup, it has the record written that it had read.
#[verifier::rlimit(40)]
pub proof fn updates_write_the_renewed_record(
    opts: UpdateOptionsView,
    health: HealthCheck,
    replies: Seq<ReplyView>,
)
    requires
        update_answered(update_begin(opts, health).0, replies),
    ensures
        ({
            let (m, step) = update_from_begin(opts, health, replies);
            let records = records_told(replies);
            &&& step matches Step::Next(Action::EncodeState(state)) ==> {
                &&& records.len() == 2
                &&& m.phase == UpdatePhase::Encode ==> renewed_record(
                    state,
                    records[1],
                    records[0],
                    tags_told(replies),
                    digests_told(replies),
                    clocks_told(replies)[0],
                )
                &&& m.phase != UpdatePhase::Encode ==> opts.skip_backup && state == records[1]
            }
            &&& m.phase == UpdatePhase::Write ==> {
                &&& records.len() == 2
                &&& m.new_state matches Some(state)
                &&& renewed_record(
                    state,
                    records[1],
                    records[0],
                    tags_told(replies),
                    digests_told(replies),
                    clocks_told(replies)[0],
                )
                &&& repinned(opts.compose_template, state.images) matches Ok(compose)
                &&& write_file_command(
                    compose_path_of(opts.install_path),
                    encode_utf8(compose),
                ) matches Ok(command)
                &&& step == UpdateStep::Next(Action::Exec(command))
            }
        }),
{
    lemma_update_told(opts, health, replies);
}

/// An update that changed the relay reports its backup, which is named after the time of the
/// update, unless backups were to be skipped; and the old backups that it removed, which are those
/// of the listing of the backups that are too old at that time.
#[verifier::rlimit(40)]
pub proof fn updates_report_their_backups(
    opts: UpdateOptionsView,
    health: HealthCheck,
    replies: Seq<ReplyView>,
)
    requires
        update_answered(update_begin(opts, health).0, replies),
        update_from_begin(opts, health, replies).1 matches Step::Done(report) && report.changed,
    ensures
        ({
            let report = update_from_begin(opts, health, replies).1->Done_0;
            let now = clocks_told(replies)[0];
            let outputs = outputs_told(replies);
            let listing = outputs[outputs.len() - 1 - report.gc_deleted.len()];
            &&& clocks_told(replies).len() == 1
            &&& opts.skip_backup <==> report.backup_dir is None
            &&& report.backup_dir matches Some(dir) ==> dir == backup_dir_of(
                opts.install_path,
                now.spec_stamp(),
            )
            &&& outputs.len() > report.gc_deleted.len()
            &&& listing.exit_code != 0 ==> report.gc_deleted.len() == 0
            &&& listing.exit_code == 0 ==> report.gc_deleted == expired_in(
                utf8_lossy(listing.stdout),
                now.spec_secs(),
            )
        }),
{
    lemma_update_told(opts, health, replies);
}

// ---------------------------------------------------------------------------------------------
// Installations
// ---------------------------------------------------------------------------------------------

/// Whether pins are those of services, one by one from the first, at the given repository and tag
/// and the digest that the registry gave for each.
pub open spec fn pinned_services(
    opts: BootstrapOptionsView,
    digests: Seq<Seq<char>>,
    at: Timestamp,
    pins: Seq<PinView>,
) -> bool {
    &&& pins.len() == digests.len()
    &&& pins.len() <= opts.services.len()
    &&& forall|i: int|
        0 <= i < pins.len() ==> {
            &&& (#[trigger] pins[i]).service == opts.services[i]
            &&& pins[i].repo == opts.repo
            &&& pins[i].tag == opts.tag
            &&& pins[i].digest == digests[i]
            &&& pins[i].pinned_at == at
        }
}

/// Whether a record is that of a relay installed at a time, with one pin for each service.
pub open spec fn first_record(
    opts: BootstrapOptionsView,
    digests: Seq<Seq<char>>,
    at: Timestamp,
    record: StateView,
) -> bool {
    &&& pinned_services(opts, digests, at, record.images)
    &&& record.images.len() == opts.services.len()
    &&& record.install.bootstrapped_at == at
    &&& record.install.bootstrapped_by_rustmote_version == opts.rustmote_version
    &&& record.install.last_updated_at is None
}

/// The system of the remote: the one that is given, or the one that the text of its release file
/// names, which is the first that an installation reads.
pub open spec fn system_told(opts: BootstrapOptionsView, replies: Seq<ReplyView>) -> Option<
    OsKind,
> {
    match opts.os_hint {
        Some(os) => Some(os),
        None => match replies[0] {
            Reply::Output(out) => os_in(utf8_lossy(out.stdout)),
            _ => None,
        },
    }
}

/// How many replies an installation takes to know the remote's system.
pub open spec fn replies_for_system(opts: BootstrapOptionsView) -> int {
    if opts.os_hint is Some {
        0
    } else {
        1
    }
}

/// Whether a reply is that of a command that ran and exited with status zero.
pub open spec fn went_well(reply: ReplyView) -> bool {
    reply matches Reply::Output(out) && out.exit_code == 0
}

/// Whether a reply is that of a command that ran and exited with another status.
pub open spec fn went_wrong(reply: ReplyView) -> bool {
    reply matches Reply::Output(out) && out.exit_code != 0
}

spec fn key_told(install_path: Seq<char>, reply: ReplyView, key: Option<Seq<char>>) -> bool {
    match key {
        Some(k) => reply matches Reply::Output(out) && out.exit_code == 0 && k == trim(
            utf8_lossy(out.stdout),
        ),
        None => !went_well(reply) || cat_file_command(key_path_of(install_path)) is Err,
    }
}

spec fn bootstrap_told(
    opts: BootstrapOptionsView,
    replies: Seq<ReplyView>,
    m: BootstrapView,
    step: BootstrapStep,
) -> bool {
    let records = records_told(replies);
    let digests = digests_told(replies);
    let clocks = clocks_told(replies);
    let first = replies_for_system(opts);
    let count = replies.len() - first;
    let fresh = m.state matches Some(state) && clocks.len() == 1 && first_record(
        opts,
        digests,
        clocks[0],
        state,
    );
    &&& m.opts == opts
    &&& match m.phase {
        BootstrapPhase::Os => replies.len() == 0 && first == 1,
        BootstrapPhase::Over => true,
        _ => {
            &&& count >= 0
            &&& m.os is Some
            &&& m.os == system_told(opts, replies)
        },
    }
    &&& match m.phase {
        BootstrapPhase::Os | BootstrapPhase::Docker => clocks.len() == 0 && m.pins.len() == 0
            && digests.len() == 0 && records.len() == 0,
        BootstrapPhase::ComposeV2
        | BootstrapPhase::ComposeV1
        | BootstrapPhase::InstallDir
        | BootstrapPhase::StateFile
        | BootstrapPhase::StateText
        | BootstrapPhase::StateDecode
        | BootstrapPhase::Clock => clocks.len() == 0 && m.pins.len() == 0 && digests.len() == 0
            && records.len() == 0,
        BootstrapPhase::OldKey => {
            &&& records.len() == 1 && m.state == Some(records[0])
            &&& cat_file_command(key_path_of(opts.install_path)) matches Ok(command) && step
                == BootstrapStep::Next(Action::Exec(command))
        },
        BootstrapPhase::Digest => {
            &&& records.len() == 0
            &&& clocks.len() == 1 && m.now == Some(clocks[0])
            &&& pinned_services(opts, digests, clocks[0], m.pins)
            &&& m.pins.len() < opts.services.len()
            &&& step == BootstrapStep::Next(
                Action::ResolveDigest { repo: opts.repo, tag: opts.tag },
            )
        },
        BootstrapPhase::Encode => {
            &&& records.len() == 0
            &&& fresh
            &&& step == BootstrapStep::Next(Action::EncodeState(m.state->0))
        },
        BootstrapPhase::NewKey => {
            &&& records.len() == 0
            &&& fresh
            &&& cat_file_command(key_path_of(opts.install_path)) matches Ok(command) && step
                == BootstrapStep::Next(Action::Exec(command))
        },
        BootstrapPhase::Over => step matches Step::Done(report) ==> {
            &&& report.install_path == opts.install_path
            &&& Some(report.detected_os) == system_told(opts, replies)
            &&& report.already_installed ==> records.len() == 1 && report.state == records[0]
            &&& !report.already_installed ==> records.len() == 0 && clocks.len() == 1
                && first_record(opts, digests, clocks[0], report.state)
            &&& replies.len() > 0
            &&& key_told(opts.install_path, replies.last(), report.relay_public_key)
        },
        _ => records.len() == 0 && fresh,
    }
    &&& match m.phase {
        BootstrapPhase::Docker => count == 0 && step == BootstrapStep::Next(
            Action::Exec("command -v docker"@),
        ),
        BootstrapPhase::ComposeV2 => count == 1 && went_well(replies[first]),
        BootstrapPhase::ComposeV1 => count == 2 && went_wrong(replies[first + 1]),
        BootstrapPhase::InstallDir => count == 2 && went_well(replies[first + 1]),
        BootstrapPhase::StateFile => count == 3 && went_well(replies[first + 1]) && went_well(
            replies[first + 2],
        ),
        BootstrapPhase::StateText => count == 4 && went_well(replies[first + 3]),
        BootstrapPhase::StateDecode => count == 5,
        BootstrapPhase::OldKey => count == 6,
        BootstrapPhase::Clock => count == 3 && went_well(replies[first + 1]) && went_wrong(
            replies[first + 2],
        ),
        BootstrapPhase::Digest
        | BootstrapPhase::Layout
        | BootstrapPhase::Encode
        | BootstrapPhase::Start
        | BootstrapPhase::Health
        | BootstrapPhase::NewKey => count > 3,
        _ => true,
    }
    &&& step is Next <==> m.phase != BootstrapPhase::Over
}

proof fn lemma_bootstrap_told_pins(
    opts: BootstrapOptionsView,
    replies: Seq<ReplyView>,
    m: BootstrapView,
)
    requires
        m.opts == opts,
        m.os is Some,
        m.os == system_told(opts, replies),
        replies.len() > replies_for_system(opts) + 3,
        records_told(replies).len() == 0,
        clocks_told(replies).len() == 1,
        m.now == Some(clocks_told(replies)[0]),
        pinned_services(opts, digests_told(replies), clocks_told(replies)[0], m.pins),
    ensures
        ({
            let (next, step) = bootstrap_pins(m);
            bootstrap_told(opts, replies, next, step)
        }),
{
}

#[verifier::rlimit(40)]
proof fn lemma_bootstrap_told_step(
    opts: BootstrapOptionsView,
    replies: Seq<ReplyView>,
    m: BootstrapView,
    step: BootstrapStep,
    reply: ReplyView,
)
    requires
        bootstrap_told(opts, replies, m, step),
        fits(bootstrap_wait(m), reply),
    ensures
        ({
            let (next, asked) = bootstrap_step(m, reply);
            bootstrap_told(opts, replies.push(reply), next, asked)
        }),
{
    let all = replies.push(reply);
    assert(all.drop_last() =~= replies);
    assert(all.last() == reply);
    assert(m.phase != BootstrapPhase::Os && m.phase != BootstrapPhase::Over ==> system_told(
        opts,
        all,
    ) == system_told(opts, replies));
    if m.phase == BootstrapPhase::Clock && reply is Clock {
        lemma_bootstrap_told_pins(opts, all, Bootstrap { now: Some(reply->Clock_0), ..m });
    } else if m.phase == BootstrapPhase::Digest && reply is Digest {
        let pin = ImagePin {
            service: m.opts.services[m.pins.len() as int],
            repo: m.opts.repo,
            tag: m.opts.tag,
            digest: reply->Digest_0,
            pinned_at: m.now->0,
        };
        lemma_bootstrap_told_pins(opts, all, Bootstrap { pins: m.pins.push(pin), ..m });
    }
}

proof fn lemma_bootstrap_told(
    opts: BootstrapOptionsView,
    health: HealthCheck,
    replies: Seq<ReplyView>,
)
    requires
        bootstrap_answered(bootstrap_begin(opts, health).0, replies),
    ensures
        bootstrap_told(
            opts,
            replies,
            bootstrap_from_begin(opts, health, replies).0,
            bootstrap_from_begin(opts, health, replies).1,
        ),
    decreases replies.len(),
{
    if replies.len() > 0 {
        let before = replies.drop_last();
        lemma_bootstrap_told(opts, health, before);
        if replies.len() == 1 {
            assert(before.len() == 0);
        }
        assert(before.push(replies.last()) =~= replies);
        lemma_bootstrap_told_step(
            opts,
            before,
            bootstrap_from_begin(opts, health, before).0,
            bootstrap_from_begin(opts, health, before).1,
            replies.last(),
        );
    }
}

/// An installation that comes to its end reports the record of the relay that it found, or one of
/// its own: with one pin for each service, in the order of the services, at the repository and the
/// tag that were given and the digest that the registry gave for that service, installed at the
/// time that was told and never updated.
pub proof fn installations_pin_each_service(
    opts: BootstrapOptionsView,
    health: HealthCheck,
    replies: Seq<ReplyView>,
)
    requires
        bootstrap_answered(bootstrap_begin(opts, health).0, replies),
        bootstrap_from_begin(opts, health, replies).1 is Done,
    ensures
        ({
            let report = bootstrap_from_begin(opts, health, replies).1->Done_0;
            let digests = digests_told(replies);
            let clocks = clocks_told(replies);
            let record = report.state;
            &&& report.install_path == opts.install_path
            &&& report.already_installed ==> records_told(replies) == seq![record]
            &&& !report.already_installed ==> {
                &&& records_told(replies).len() == 0
                &&& clocks.len() == 1
                &&& digests.len() == opts.services.len()
                &&& record.images.len() == opts.services.len()
                &&& forall|i: int|
                    0 <= i < opts.services.len() ==> {
                        let pin = #[trigger] record.images[i];
                        &&& pin.service == opts.services[i]
                        &&& pin.repo == opts.repo
                        &&& pin.tag == opts.tag
                        &&& pin.digest == digests[i]
                        &&& pin.pinned_at == clocks[0]
                    }
                &&& record.install.bootstrapped_at == clocks[0]
                &&& record.install.bootstrapped_by_rustmote_version == opts.rustmote_version
                &&& record.install.last_updated_at is None
            }
        }),
{
    lemma_bootstrap_told(opts, health, replies);
    let report = bootstrap_from_begin(opts, health, replies).1->Done_0;
    if report.already_installed {
        assert(records_told(replies) =~= seq![report.state]);
    }
}

/// An installation reports the system that it was given, or else the one that the remote's release
/// file names; and the text of the public key's file without the white space around it, or no key
/// where the file could not be read.
pub proof fn installations_report_system_and_key(
    opts: BootstrapOptionsView,
    health: HealthCheck,
    replies: Seq<ReplyView>,
)
    requires
        bootstrap_answered(bootstrap_begin(opts, health).0, replies),
        bootstrap_from_begin(opts, health, replies).1 is Done,
    ensures
        ({
            let report = bootstrap_from_begin(opts, health, replies).1->Done_0;
            &&& replies.len() > 0
            &&& opts.os_hint matches Some(os) ==> report.detected_os == os
            &&& opts.os_hint is None ==> {
                &&& replies[0] matches Reply::Output(out)
                &&& os_in(utf8_lossy(out.stdout)) == Some(report.detected_os)
            }
            &&& report.relay_public_key matches Some(key) ==> {
                &&& replies.last() matches Reply::Output(out)
                &&& out.exit_code == 0
                &&& key == trim(utf8_lossy(out.stdout))
            }
            &&& report.relay_public_key is None ==> {
                ||| cat_file_command(key_path_of(opts.install_path)) is Err
                ||| replies.last() matches Reply::Output(out) ==> out.exit_code != 0
            }
        }),
{
    lemma_bootstrap_told(opts, health, replies);
}

/// An installation looks at the remote before it does anything: it fails without a container
/// engine; without the compose plugin it fails as well, and tells the old compose tool apart. It
/// goes on to install only where the install path is not taken; a taken path is a relay's where its
/// record is there, and foreign where it is not.
pub proof fn installations_look_at_the_remote_first(
    opts: BootstrapOptionsView,
    health: HealthCheck,
    replies: Seq<ReplyView>,
)
    requires
        bootstrap_answered(bootstrap_begin(opts, health).0, replies),
        replies.len() >= replies_for_system(opts),
    ensures
        ({
            let step = bootstrap_from_begin(opts, health, replies).1;
            let first = replies_for_system(opts);
            let count = replies.len() - first;
            let engine = replies[first];
            let plugin = replies[first + 1];
            let third = replies[first + 2];
            let fourth = replies[first + 3];
            let record = state_path_of(opts.install_path);
            &&& count == 0 && step is Next ==> step == BootstrapStep::Next(
                Action::Exec("command -v docker"@),
            )
            &&& count == 1 && went_wrong(engine) ==> step == BootstrapStep::Failed(
                RustmoteError::DockerEngineNotInstalled,
            )
            &&& count == 1 && went_well(engine) ==> step == BootstrapStep::Next(
                Action::Exec("docker compose version"@),
            )
            &&& count == 2 && went_wrong(plugin) ==> step == BootstrapStep::Next(
                Action::Exec("docker-compose --version"@),
            )
            &&& count == 2 && went_well(plugin) ==> step == issue::<BootstrapReportView>(
                test_dir_exists_command(opts.install_path),
            )
            &&& count == 3 && went_wrong(plugin) && went_well(third) ==> step
                == BootstrapStep::Failed(RustmoteError::DockerComposeV1Detected)
            &&& count == 3 && went_wrong(plugin) && went_wrong(third) ==> step
                == BootstrapStep::Failed(RustmoteError::DockerEngineNotInstalled)
            &&& count == 3 && went_well(plugin) && went_well(third) ==> step == issue::<
                BootstrapReportView,
            >(test_file_exists_command(record))
            &&& count == 3 && went_well(plugin) && went_wrong(third) ==> step
                == BootstrapStep::Next(Action::ReadClock)
            &&& count == 4 && went_well(third) && went_well(fourth) ==> step == issue::<
                BootstrapReportView,
            >(cat_file_command(record))
            &&& count == 4 && went_well(third) && went_wrong(fourth) ==> step
                == BootstrapStep::Failed(RustmoteError::RelayForeignInstall(opts.install_path))
        }),
{
    lemma_bootstrap_told(opts, health, replies);
    if replies.len() > 0 {
        let before = replies.drop_last();
        lemma_bootstrap_told(opts, health, before);
        if replies.len() == 1 {
            assert(before.len() == 0);
        }
    }
}

/// Once the new services answer, an update lists the backups of the relay, and removes the old ones
/// of the listing one after the other. Before it changes anything it asks for the time.
#[verifier::rlimit(40)]
pub proof fn updates_collect_old_backups(
    opts: UpdateOptionsView,
    health: HealthCheck,
    replies: Seq<ReplyView>,
)
    requires
        update_answered(update_begin(opts, health).0, replies),
    ensures
        ({
            let (m, step) = update_from_begin(opts, health, replies);
            let outputs = outputs_told(replies);
            let now = clocks_told(replies)[0];
            &&& m.phase == UpdatePhase::Clock ==> step == UpdateStep::Next(Action::ReadClock)
            &&& m.phase == UpdatePhase::Config ==> {
                &&& compose_config_command(opts.install_path) matches Ok(command)
                &&& step == UpdateStep::Next(Action::Exec(command))
            }
            &&& m.phase == UpdatePhase::List ==> {
                &&& list_backups_command(backups_path_of(opts.install_path)) matches Ok(command)
                &&& step == UpdateStep::Next(Action::Exec(command))
            }
            &&& m.phase == UpdatePhase::Remove ==> {
                let listing = outputs[outputs.len() - 1 - m.removed];
                let old = expired_in(utf8_lossy(listing.stdout), now.spec_secs());
                &&& m.removed < outputs.len()
                &&& listing.exit_code == 0
                &&& m.removed < old.len()
                &&& remove_tree_command(old[m.removed as int]) matches Ok(command)
                &&& step == UpdateStep::Next(Action::Exec(command))
            }
        }),
{
    lemma_update_told(opts, health, replies);
}

/// An update that is confirmed beforehand, or that somebody is there to confirm, looks whether the
/// relay's record is there.
pub proof fn confirmed_updates_begin(opts: UpdateOptionsView, health: HealthCheck)
    requires
        opts.assume_yes || opts.is_tty,
    ensures
        match test_file_exists_command(state_path_of(opts.install_path)) {
            Ok(command) => update_begin(opts, health).1 == UpdateStep::Next(Action::Exec(command)),
            Err(e) => update_begin(opts, health).1 == UpdateStep::Failed(e),
        },
{
}

// ---------------------------------------------------------------------------------------------
// Health within the operations
// ---------------------------------------------------------------------------------------------

/// Whether a health check has been going on since so many replies, and stands somewhere.
pub open spec fn checks_health(
    health: HealthCheck,
    replies: Seq<ReplyView>,
    from: int,
    now: HealthCheck,
) -> bool {
    &&& 0 <= from <= replies.len()
    &&& from == replies.len() ==> now == health
    &&& from < replies.len() ==> health_answered(health, replies.skip(from)) && now == health_after(
        health,
        replies.skip(from),
    ).0
}

/// Whether the replies of a range lead a health check to its end, and it finds the relay healthy.
pub open spec fn found_healthy(
    health: HealthCheck,
    replies: Seq<ReplyView>,
    from: int,
    to: int,
) -> bool {
    &&& 0 <= from < to <= replies.len()
    &&& health_answered(health, replies.subrange(from, to))
    &&& health_after(health, replies.subrange(from, to)).1 is Done
}

/// Whether the replies of a range lead a health check to its end, and it fails.
pub open spec fn found_unhealthy(
    health: HealthCheck,
    replies: Seq<ReplyView>,
    from: int,
    to: int,
) -> bool {
    &&& 0 <= from < to <= replies.len()
    &&& health_answered(health, replies.subrange(from, to))
    &&& health_after(health, replies.subrange(from, to)).1 is Failed
}

proof fn lemma_checks_on(
    health: HealthCheck,
    replies: Seq<ReplyView>,
    from: int,
    now: HealthCheck,
    reply: ReplyView,
)
    requires
        checks_health(health, replies, from, now),
        fits(health_wait(now), reply),
    ensures
        ({
            let all = replies.push(reply);
            let (next, step) = health_step(now, reply);
            &&& checks_health(health, all, from, next)
            &&& step is Done ==> found_healthy(health, all, from, all.len() as int)
            &&& step is Failed ==> found_unhealthy(health, all, from, all.len() as int)
        }),
{
    let all = replies.push(reply);
    let part = all.skip(from);
    assert(part.drop_last() =~= replies.skip(from));
    assert(part.last() == reply);
    assert(all.subrange(from, all.len() as int) =~= part);
    if from == replies.len() {
        assert(part.len() == 1);
        assert(part[0] == reply);
    }
}

proof fn lemma_found_before(
    health: HealthCheck,
    replies: Seq<ReplyView>,
    reply: ReplyView,
    from: int,
    to: int,
)
    requires
        0 <= from < to <= replies.len(),
    ensures
        found_healthy(health, replies, from, to) ==> found_healthy(
            health,
            replies.push(reply),
            from,
            to,
        ),
        found_unhealthy(health, replies, from, to) ==> found_unhealthy(
            health,
            replies.push(reply),
            from,
            to,
        ),
{
    assert(replies.push(reply).subrange(from, to) =~= replies.subrange(from, to));
}

/// Whether a relay has been found healthy in the course of some replies.
pub open spec fn once_healthy(health: HealthCheck, replies: Seq<ReplyView>) -> bool {
    exists|from: int, to: int| #[trigger] found_healthy(health, replies, from, to)
}

/// Whether a health check has failed in the course of some replies.
pub open spec fn once_unhealthy(health: HealthCheck, replies: Seq<ReplyView>) -> bool {
    exists|from: int, to: int| #[trigger] found_unhealthy(health, replies, from, to)
}

spec fn update_health_told(
    health: HealthCheck,
    replies: Seq<ReplyView>,
    m: UpdateView,
    step: UpdateStep,
) -> bool {
    match m.phase {
        UpdatePhase::Health => exists|from: int| #[trigger]
            checks_health(health, replies, from, m.health),
        UpdatePhase::List | UpdatePhase::Remove => once_healthy(health, replies),
        UpdatePhase::Recover | UpdatePhase::Rollback | UpdatePhase::RollbackHealth => {
            once_unhealthy(health, replies)
        },
        UpdatePhase::Over => step matches Step::Done(report) ==> report.changed ==> once_healthy(
            health,
            replies,
        ),
        _ => m.health == health,
    }
}

proof fn lemma_once_before(health: HealthCheck, replies: Seq<ReplyView>, reply: ReplyView)
    ensures
        once_healthy(health, replies) ==> once_healthy(health, replies.push(reply)),
        once_unhealthy(health, replies) ==> once_unhealthy(health, replies.push(reply)),
{
    if once_healthy(health, replies) {
        let (from, to) = choose|from: int, to: int| #[trigger]
            found_healthy(health, replies, from, to);
        lemma_found_before(health, replies, reply, from, to);
    }
    if once_unhealthy(health, replies) {
        let (from, to) = choose|from: int, to: int| #[trigger]
            found_unhealthy(health, replies, from, to);
        lemma_found_before(health, replies, reply, from, to);
    }
}

proof fn lemma_update_health_step(
    health: HealthCheck,
    replies: Seq<ReplyView>,
    m: UpdateView,
    step: UpdateStep,
    reply: ReplyView,
)
    requires
        update_health_told(health, replies, m, step),
        fits(update_wait(m), reply),
    ensures
        ({
            let (next, asked) = update_step(m, reply);
            update_health_told(health, replies.push(reply), next, asked)
        }),
{
    let all = replies.push(reply);
    lemma_once_before(health, replies, reply);
    match m.phase {
        UpdatePhase::Health => {
            let from = choose|from: int| #[trigger] checks_health(health, replies, from, m.health);
            lemma_checks_on(health, replies, from, m.health, reply);
        },
        UpdatePhase::Start => {
            assert(checks_health(health, all, all.len() as int, health));
        },
        _ => {},
    }
}

proof fn lemma_update_health(opts: UpdateOptionsView, health: HealthCheck, replies: Seq<ReplyView>)
    requires
        update_answered(update_begin(opts, health).0, replies),
    ensures
        update_health_told(
            health,
            replies,
            update_from_begin(opts, health, replies).0,
            update_from_begin(opts, health, replies).1,
        ),
    decreases replies.len(),
{
    if replies.len() > 0 {
        let before = replies.drop_last();
        lemma_update_health(opts, health, before);
        if replies.len() == 1 {
            assert(before.len() == 0);
        }
        assert(before.push(replies.last()) =~= replies);
        lemma_update_health_step(
            health,
            before,
            update_from_begin(opts, health, before).0,
            update_from_begin(opts, health, before).1,
            replies.last(),
        );
    }
}

/// An update changes a relay and reports it only where a health check, with the timeout and the
/// interval that were given, found the new services healthy; and it goes back only where that check
/// failed.
pub proof fn updates_go_by_the_health_of_the_relay(
    opts: UpdateOptionsView,
    health: HealthCheck,
    replies: Seq<ReplyView>,
)
    requires
        update_answered(update_begin(opts, health).0, replies),
    ensures
        ({
            let (m, step) = update_from_begin(opts, health, replies);
            &&& step matches Step::Done(report) ==> report.changed ==> once_healthy(health, replies)
            &&& going_back(m) ==> once_unhealthy(health, replies)
            &&& m.phase == UpdatePhase::Health ==> exists|from: int| #[trigger]
                checks_health(health, replies, from, m.health)
        }),
{
    lemma_update_told(opts, health, replies);
    lemma_update_health(opts, health, replies);
}

spec fn bootstrap_health_told(
    health: HealthCheck,
    replies: Seq<ReplyView>,
    m: BootstrapView,
    step: BootstrapStep,
) -> bool {
    match m.phase {
        BootstrapPhase::Health => exists|from: int| #[trigger]
            checks_health(health, replies, from, m.health),
        BootstrapPhase::NewKey => once_healthy(health, replies),
        BootstrapPhase::Over => step matches Step::Done(report) ==> !report.already_installed
            ==> once_healthy(health, replies),
        _ => m.health == health,
    }
}

proof fn lemma_bootstrap_health_step(
    health: HealthCheck,
    replies: Seq<ReplyView>,
    m: BootstrapView,
    step: BootstrapStep,
    reply: ReplyView,
)
    requires
        bootstrap_health_told(health, replies, m, step),
        fits(bootstrap_wait(m), reply),
    ensures
        ({
            let (next, asked) = bootstrap_step(m, reply);
            bootstrap_health_told(health, replies.push(reply), next, asked)
        }),
{
    let all = replies.push(reply);
    lemma_once_before(health, replies, reply);
    match m.phase {
        BootstrapPhase::Health => {
            let from = choose|from: int| #[trigger] checks_health(health, replies, from, m.health);
            lemma_checks_on(health, replies, from, m.health, reply);
        },
        BootstrapPhase::Start => {
            assert(checks_health(health, all, all.len() as int, health));
        },
        _ => {},
    }
}

proof fn lemma_bootstrap_health(
    opts: BootstrapOptionsView,
    health: HealthCheck,
    replies: Seq<ReplyView>,
)
    requires
        bootstrap_answered(bootstrap_begin(opts, health).0, replies),
    ensures
        bootstrap_health_told(
            health,
            replies,
            bootstrap_from_begin(opts, health, replies).0,
            bootstrap_from_begin(opts, health, replies).1,
        ),
    decreases replies.len(),
{
    if replies.len() > 0 {
        let before = replies.drop_last();
        lemma_bootstrap_health(opts, health, before);
        if replies.len() == 1 {
            assert(before.len() == 0);
        }
        assert(before.push(replies.last()) =~= replies);
        lemma_bootstrap_health_step(
            health,
            before,
            bootstrap_from_begin(opts, health, before).0,
            bootstrap_from_begin(opts, health, before).1,
            replies.last(),
        );
    }
}

/// A new relay is reported only where a health check, with the timeout and the interval that were
/// given, found it healthy; and while an installation checks its health, it goes by that check
/// alone.
pub proof fn installations_end_with_a_healthy_relay(
    opts: BootstrapOptionsView,
    health: HealthCheck,
    replies: Seq<ReplyView>,
)
    requires
        bootstrap_answered(bootstrap_begin(opts, health).0, replies),
    ensures
        ({
            let (m, step) = bootstrap_from_begin(opts, health, replies);
            &&& step matches Step::Done(report) ==> !report.already_installed ==> once_healthy(
                health,
                replies,
            )
            &&& m.phase == BootstrapPhase::Health ==> exists|from: int| #[trigger]
                checks_health(health, replies, from, m.health)
        }),
{
    lemma_bootstrap_health(opts, health, replies);
}

/// What a health check within an installation asks for, the installation asks for; where the check
/// fails, the installation fails with it, and where it ends well, the public key is read.
pub proof fn installations_follow_their_health_check(m: BootstrapView, reply: ReplyView)
    requires
        m.phase == BootstrapPhase::Health,
        fits(bootstrap_wait(m), reply),
    ensures
        ({
            let (next, step) = bootstrap_step(m, reply);
            let (health, asked) = health_step(m.health, reply);
            &&& next.health == health
            &&& asked matches Step::Next(action) ==> step == BootstrapStep::Next(action)
                && next.phase == BootstrapPhase::Health
            &&& asked matches Step::Failed(e) ==> step == BootstrapStep::Failed(e)
            &&& asked is Done ==> match cat_file_command(key_path_of(m.opts.install_path)) {
                Ok(command) => step == BootstrapStep::Next(Action::Exec(command)) && next.phase
                    == BootstrapPhase::NewKey,
                Err(_) => step is Done,
            }
        }),
{
}

/// What a health check within an update asks for, the update asks for.
pub proof fn updates_follow_their_health_check(m: UpdateView, reply: ReplyView)
    requires
        m.phase == UpdatePhase::Health || m.phase == UpdatePhase::RollbackHealth,
        fits(update_wait(m), reply),
    ensures
        ({
            let (next, step) = update_step(m, reply);
            let (health, asked) = health_step(m.health, reply);
            &&& next.health == health
            &&& asked matches Step::Next(action) ==> step == UpdateStep::Next(action) && next.phase
                == m.phase
            &&& asked is Done && m.phase == UpdatePhase::Health ==> match list_backups_command(
                backups_path_of(m.opts.install_path),
            ) {
                Ok(command) => step == UpdateStep::Next(Action::Exec(command)) && next.phase
                    == UpdatePhase::List,
                Err(e) => step == UpdateStep::Failed(e),
            }
            &&& !(asked is Next) && m.phase == UpdatePhase::RollbackHealth ==> step is Failed
        }),
{
}

// ---------------------------------------------------------------------------------------------
// Commands that fail
// ---------------------------------------------------------------------------------------------

/// A command that exits with another status than zero ends an update at once, with the command, its
/// status and what it wrote to standard error: whatever the update was doing to the remote then.
pub proof fn failed_commands_end_an_update(m: UpdateView, out: ExecOutputView)
    requires
        update_ok(m),
        out.exit_code != 0,
        match m.phase {
            UpdatePhase::Backup
            | UpdatePhase::Snapshot
            | UpdatePhase::Write
            | UpdatePhase::Start
            | UpdatePhase::Rollback => true,
            _ => false,
        },
    ensures
        update_step(m, Reply::Output(out)).1 == UpdateStep::Failed(
            RustmoteError::RemoteCommandFailed {
                command: m.queue[0],
                exit_code: out.exit_code,
                stderr: utf8_lossy(out.stderr),
            },
        ),
        update_wait(update_step(m, Reply::Output(out)).0) == Wait::Nothing,
{
}

/// A command that exits with another status than zero ends an installation at once, with the
/// command, its status and what it wrote to standard error, once the remote is being changed.
pub proof fn failed_commands_end_an_installation(m: BootstrapView, out: ExecOutputView)
    requires
        bootstrap_ok(m),
        out.exit_code != 0,
        m.phase == BootstrapPhase::Layout || m.phase == BootstrapPhase::Start,
    ensures
        bootstrap_step(m, Reply::Output(out)).1 == BootstrapStep::Failed(
            RustmoteError::RemoteCommandFailed {
                command: m.queue[0],
                exit_code: out.exit_code,
                stderr: utf8_lossy(out.stderr),
            },
        ),
        bootstrap_wait(bootstrap_step(m, Reply::Output(out)).0) == Wait::Nothing,
{
}

/// What cannot be done at all ends an operation with its failure: a command that cannot be sent, a
/// registry that does not reply, a record that cannot be decoded. Only the health check of an
/// update, which then goes back, and the reading of a public key, which then is not known, go on.
pub proof fn failures_end_the_operations(
    check: CheckView,
    update: UpdateView,
    bootstrap: BootstrapView,
    status: StatusView,
    e: ErrorView,
)
    ensures
        check_wait(check) != Wait::Nothing ==> check_step(check, Reply::Failed(e)).1
            == CheckStep::Failed(e),
        update_wait(update) != Wait::Nothing && update.phase != UpdatePhase::Health ==> update_step(
            update,
            Reply::Failed(e),
        ).1 == UpdateStep::Failed(e),
        bootstrap_wait(bootstrap) != Wait::Nothing && bootstrap.phase != BootstrapPhase::OldKey
            && bootstrap.phase != BootstrapPhase::NewKey ==> bootstrap_step(
            bootstrap,
            Reply::Failed(e),
        ).1 == BootstrapStep::Failed(e),
        status_wait(status) != Wait::Nothing && status.phase != StatusPhase::Key ==> status_step(
            status,
            Reply::Failed(e),
        ).1 == StatusStep::Failed(e),
        status.phase == StatusPhase::Key ==> (status_step(status, Reply::Failed(e)).1 matches
            Step::Done(report) && report.relay_public_key is None),
{
}

} // verus!
