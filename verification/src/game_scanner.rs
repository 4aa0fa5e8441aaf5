//! The host's view of the local lobby, and the events that follow from how
//! it changes from one tick to the next.
//!
//! Once per tick the scanner takes what it knows of the lobby, asks the local
//! game again, and a second later looks at what has come in. A lobby that is
//! there now and was not before has opened; one that was there and is not
//! now has closed.

use vstd::prelude::*;
use crate::codec::WireFormat;
use crate::packets::{
    classify, GameType, GenerableWc3UdpMessageType, GenerableWc3UdpMessageTypeView,
    NewServerHosted, QueryForGamesRequest, QueryForGamesResponse, QueryForGamesResponseView,
    ServerClosed, Wc3UdpMessageType, Wc3UdpMessageTypeView, QUERY_FOR_GAMES_REQUEST_SIZE,
};

verus! {

/// What the host knows of the local lobby.
#[derive(Debug, PartialEq, Eq)]
pub enum LobbyState {
    /// No lobby has answered since the state was last taken.
    Absent,
    /// The latest answer of the lobby.
    Present(QueryForGamesResponse),
}

/// What a `LobbyState` holds, as mathematical values.
pub enum LobbyStateView {
    Absent,
    Present(QueryForGamesResponseView),
}

impl View for LobbyState {
    type V = LobbyStateView;

    open spec fn view(&self) -> LobbyStateView {
        match self {
            LobbyState::Absent => LobbyStateView::Absent,
            LobbyState::Present(r) => LobbyStateView::Present(r@),
        }
    }
}

impl Clone for LobbyState {
    fn clone(&self) -> (r: LobbyState)
        ensures
            r@ == self@,
    {
        match self {
            LobbyState::Absent => LobbyState::Absent,
            LobbyState::Present(response) => LobbyState::Present(response.clone()),
        }
    }
}

/// What the scanner did with a datagram from the local game.
#[derive(Debug, PartialEq, Eq)]
pub enum IngestReport {
    /// The datagram was the answer of a lobby and is now the state.
    LobbySeen,
    /// The datagram was a discovery packet of another kind, to be logged.
    OtherPacket(Wc3UdpMessageType),
    /// The datagram was no discovery packet; its length is to be logged.
    UnknownPacket(usize),
}

/// The lobby state after `datagram` came in: the answer that it carries, or
/// the state as it was where it carries none.
pub open spec fn lobby_after_datagram(lobby: LobbyStateView, datagram: Seq<u8>) -> LobbyStateView {
    match classify(datagram) {
        Some(Wc3UdpMessageTypeView::QueryForGamesResponse(m)) => LobbyStateView::Present(m),
        _ => lobby,
    }
}

/// The lobby state after all of `datagrams` came in, in their order.
pub open spec fn lobby_after_datagrams(
    lobby: LobbyStateView,
    datagrams: Seq<Seq<u8>>,
) -> LobbyStateView
    decreases datagrams.len(),
{
    if datagrams.len() == 0 {
        lobby
    } else {
        lobby_after_datagram(
            lobby_after_datagrams(lobby, datagrams.drop_last()),
            datagrams.last(),
        )
    }
}

/// Whether `datagram` is the answer of a lobby.
pub open spec fn carries_lobby(datagram: Seq<u8>) -> bool {
    classify(datagram) matches Some(Wc3UdpMessageTypeView::QueryForGamesResponse(_))
}

impl LobbyState {
    /// The state at startup: no lobby.
    pub fn new() -> (r: LobbyState)
        ensures
            r@ is Absent,
    {
        LobbyState::Absent
    }

    /// Hands out the state and leaves `Absent` behind, so that a lobby that
    /// does not answer the next queries is found absent.
    pub fn take(&mut self) -> (taken: LobbyState)
        ensures
            taken@ == old(self)@,
            final(self)@ is Absent,
    {
        let mut taken = LobbyState::Absent;
        std::mem::swap(self, &mut taken);
        taken
    }

    /// Takes in a datagram from the local game: the answer of a lobby
    /// becomes the state, anything else leaves the state as it is.
    pub fn ingest(&mut self, datagram: &[u8]) -> (report: IngestReport)
        ensures
            final(self)@ == lobby_after_datagram(old(self)@, datagram@),
            match classify(datagram@) {
                Some(Wc3UdpMessageTypeView::QueryForGamesResponse(_)) => report
                    == IngestReport::LobbySeen,
                Some(kind) => report matches IngestReport::OtherPacket(k) && k@ == kind,
                None => report == IngestReport::UnknownPacket(datagram@.len() as usize),
            },
    {
        match Wc3UdpMessageType::detect(datagram) {
            Some(Wc3UdpMessageType::QueryForGamesResponse(response)) => {
                *self = LobbyState::Present(response);
                IngestReport::LobbySeen
            },
            Some(kind) => IngestReport::OtherPacket(kind),
            None => IngestReport::UnknownPacket(datagram.len()),
        }
    }
}

/// The announcement that the lobby behind `response` has opened.
pub open spec fn announcement_of(response: QueryForGamesResponseView) -> NewServerHosted {
    NewServerHosted {
        game_id: response.game_id,
        game_type: response.game_type,
        game_version: response.game_version,
    }
}

/// The events that the scanner publishes at the end of a tick, in their
/// order, where the lobby state was `old` at its start and is `new` now.
pub open spec fn events_for(old: LobbyStateView, new: LobbyStateView) -> Seq<
    GenerableWc3UdpMessageTypeView,
> {
    match (old, new) {
        (LobbyStateView::Absent, LobbyStateView::Absent) => seq![],
        (LobbyStateView::Absent, LobbyStateView::Present(r)) => seq![
            GenerableWc3UdpMessageTypeView::NewServerHosted(announcement_of(r)),
            GenerableWc3UdpMessageTypeView::QueryForGamesResponse(r),
        ],
        (LobbyStateView::Present(_), LobbyStateView::Present(r)) => seq![
            GenerableWc3UdpMessageTypeView::QueryForGamesResponse(r),
        ],
        (LobbyStateView::Present(p), LobbyStateView::Absent) => seq![
            GenerableWc3UdpMessageTypeView::ServerClosed(ServerClosed { game_id: p.game_id }),
        ],
    }
}

/// The views of `events`, in their order.
pub open spec fn event_views(events: Seq<GenerableWc3UdpMessageType>) -> Seq<
    GenerableWc3UdpMessageTypeView,
> {
    Seq::new(events.len(), |i: int| events[i]@)
}

/// Derives the events of a tick from the lobby state at its start and at its
/// end.
pub fn derive_events(old: &LobbyState, new: &LobbyState) -> (events: Vec<
    GenerableWc3UdpMessageType,
>)
    ensures
        event_views(events@) == events_for(old@, new@),
{
    let mut events: Vec<GenerableWc3UdpMessageType> = Vec::new();
    match (old, new) {
        (LobbyState::Absent, LobbyState::Absent) => {},
        (LobbyState::Absent, LobbyState::Present(state)) => {
            events.push(
                GenerableWc3UdpMessageType::NewServerHosted(
                    NewServerHosted {
                        game_id: state.game_id,
                        game_type: state.game_type,
                        game_version: state.game_version,
                    },
                ),
            );
            events.push(GenerableWc3UdpMessageType::QueryForGamesResponse(state.clone()));
        },
        (LobbyState::Present(_), LobbyState::Present(state)) => {
            events.push(GenerableWc3UdpMessageType::QueryForGamesResponse(state.clone()));
        },
        (LobbyState::Present(old_state), LobbyState::Absent) => {
            events.push(
                GenerableWc3UdpMessageType::ServerClosed(
                    ServerClosed { game_id: old_state.game_id },
                ),
            );
        },
    }
    assert(event_views(events@) =~= events_for(old@, new@));
    events
}

/// The lobby state and the events at the end of one tick that starts in
/// state `lobby` and during which `datagrams` come in.
pub open spec fn tick_outcome(lobby: LobbyStateView, datagrams: Seq<Seq<u8>>) -> (
    LobbyStateView,
    Seq<GenerableWc3UdpMessageTypeView>,
) {
    let new = lobby_after_datagrams(LobbyStateView::Absent, datagrams);
    (new, events_for(lobby, new))
}

/// The views of `datagrams`, in their order.
pub open spec fn datagram_views(datagrams: Seq<Vec<u8>>) -> Seq<Seq<u8>> {
    Seq::new(datagrams.len(), |i: int| datagrams[i]@)
}

/// Runs one tick on datagrams that are already at hand: takes the state,
/// takes in each datagram in turn, and derives the events from the state
/// taken and the state then found.
pub fn run_tick(lobby: &mut LobbyState, datagrams: &[Vec<u8>]) -> (events: Vec<
    GenerableWc3UdpMessageType,
>)
    ensures
        final(lobby)@ == tick_outcome(old(lobby)@, datagram_views(datagrams@)).0,
        event_views(events@) == tick_outcome(old(lobby)@, datagram_views(datagrams@)).1,
{
    let taken = lobby.take();
    let ghost all = datagram_views(datagrams@);
    let mut i: usize = 0;
    assert(all.subrange(0, 0) =~= Seq::<Seq<u8>>::empty());
    while i < datagrams.len()
        invariant
            i <= datagrams@.len(),
            all == datagram_views(datagrams@),
            lobby@ == lobby_after_datagrams(LobbyStateView::Absent, all.subrange(0, i as int)),
        decreases datagrams@.len() - i,
    {
        let _ = lobby.ingest(datagrams[i].as_slice());
        proof {
            let next = all.subrange(0, i + 1);
            assert(next.drop_last() =~= all.subrange(0, i as int));
            assert(next.last() == datagrams@[i as int]@);
        }
        i += 1;
    }
    assert(all.subrange(0, i as int) =~= all);
    derive_events(&taken, lobby)
}

/// The lobby state and the events published up to the end of a run of
/// ticks that starts in state `lobby`; `ticks` holds, for each tick, the
/// datagrams that come in during it.
pub open spec fn run_outcome(lobby: LobbyStateView, ticks: Seq<Seq<Seq<u8>>>) -> (
    LobbyStateView,
    Seq<GenerableWc3UdpMessageTypeView>,
)
    decreases ticks.len(),
{
    if ticks.len() == 0 {
        (lobby, seq![])
    } else {
        let before = run_outcome(lobby, ticks.drop_last());
        let last = tick_outcome(before.0, ticks.last());
        (last.0, before.1 + last.1)
    }
}

/// The views of the datagrams of each tick, in their order.
pub open spec fn tick_views(ticks: Seq<Vec<Vec<u8>>>) -> Seq<Seq<Seq<u8>>> {
    Seq::new(ticks.len(), |t: int| datagram_views(ticks[t]@))
}

/// Runs one tick after the other on datagrams that are already at hand, and
/// gives the events of all of them in the order in which they are published.
pub fn run_ticks(lobby: &mut LobbyState, ticks: &[Vec<Vec<u8>>]) -> (events: Vec<
    GenerableWc3UdpMessageType,
>)
    ensures
        final(lobby)@ == run_outcome(old(lobby)@, tick_views(ticks@)).0,
        event_views(events@) == run_outcome(old(lobby)@, tick_views(ticks@)).1,
{
    let mut events: Vec<GenerableWc3UdpMessageType> = Vec::new();
    let ghost start = lobby@;
    let ghost all = tick_views(ticks@);
    let mut t: usize = 0;
    assert(all.subrange(0, 0) =~= Seq::<Seq<Seq<u8>>>::empty());
    assert(event_views(events@) =~= Seq::<GenerableWc3UdpMessageTypeView>::empty());
    while t < ticks.len()
        invariant
            t <= ticks@.len(),
            all == tick_views(ticks@),
            lobby@ == run_outcome(start, all.subrange(0, t as int)).0,
            event_views(events@) == run_outcome(start, all.subrange(0, t as int)).1,
        decreases ticks@.len() - t,
    {
        let ghost before = events@;
        let mut published = run_tick(lobby, ticks[t].as_slice());
        let ghost added = published@;
        events.append(&mut published);
        proof {
            let next = all.subrange(0, t + 1);
            assert(next.drop_last() =~= all.subrange(0, t as int));
            assert(next.last() == datagram_views(ticks@[t as int]@));
            assert(event_views(before + added) =~= event_views(before) + event_views(added));
        }
        t += 1;
    }
    assert(all.subrange(0, t as int) =~= all);
    events
}

/// Whether none of `datagrams` is the answer of a lobby.
pub open spec fn is_silent(datagrams: Seq<Seq<u8>>) -> bool {
    forall|i: int| 0 <= i < datagrams.len() ==> !carries_lobby(#[trigger] datagrams[i])
}

/// Datagrams that carry no answer leave the lobby state as it is.
pub proof fn lemma_silence_keeps_state(lobby: LobbyStateView, datagrams: Seq<Seq<u8>>)
    requires
        is_silent(datagrams),
    ensures
        lobby_after_datagrams(lobby, datagrams) == lobby,
    decreases datagrams.len(),
{
    if datagrams.len() > 0 {
        let rest = datagrams.drop_last();
        assert forall|i: int| 0 <= i < rest.len() implies !carries_lobby(#[trigger] rest[i]) by {
            assert(rest[i] == datagrams[i]);
        }
        lemma_silence_keeps_state(lobby, rest);
        assert(!carries_lobby(datagrams[datagrams.len() - 1]));
    }
}

/// The state after a series of datagrams is the last answer among them.
pub proof fn lemma_last_answer_is_state(
    lobby: LobbyStateView,
    datagrams: Seq<Seq<u8>>,
    at: int,
    answer: QueryForGamesResponseView,
)
    requires
        0 <= at < datagrams.len(),
        classify(datagrams[at]) == Some(Wc3UdpMessageTypeView::QueryForGamesResponse(answer)),
        forall|i: int| at < i < datagrams.len() ==> !carries_lobby(#[trigger] datagrams[i]),
    ensures
        lobby_after_datagrams(lobby, datagrams) == LobbyStateView::Present(answer),
    decreases datagrams.len(),
{
    let rest = datagrams.drop_last();
    if at < datagrams.len() - 1 {
        assert(rest[at] == datagrams[at]);
        assert forall|i: int| at < i < rest.len() implies !carries_lobby(#[trigger] rest[i]) by {
            assert(rest[i] == datagrams[i]);
        }
        lemma_last_answer_is_state(lobby, rest, at, answer);
        assert(!carries_lobby(datagrams[datagrams.len() - 1]));
    }
}

/// A tick during which exactly the bytes of the well-formed answer
/// `answer` come in ends with that answer as the state.
pub proof fn lemma_answer_is_seen(answer: QueryForGamesResponseView)
    requires
        answer.well_formed(),
    ensures
        lobby_after_datagrams(LobbyStateView::Absent, seq![answer.wire()])
            == LobbyStateView::Present(answer),
{
    let datagrams = seq![answer.wire()];
    crate::packets::lemma_classify_response(answer, Seq::empty());
    assert(answer.wire() + Seq::<u8>::empty() =~= answer.wire());
    lemma_last_answer_is_state(LobbyStateView::Absent, datagrams, 0, answer);
}

/// While no lobby answers, nothing is published: a run of any number of
/// silent ticks that starts without a lobby ends without one and publishes
/// no event.
pub proof fn lemma_empty_universe(ticks: Seq<Seq<Seq<u8>>>)
    requires
        forall|t: int| 0 <= t < ticks.len() ==> is_silent(#[trigger] ticks[t]),
    ensures
        run_outcome(LobbyStateView::Absent, ticks) == (
            LobbyStateView::Absent,
            Seq::<GenerableWc3UdpMessageTypeView>::empty(),
        ),
    decreases ticks.len(),
{
    if ticks.len() > 0 {
        let rest = ticks.drop_last();
        assert forall|t: int| 0 <= t < rest.len() implies is_silent(#[trigger] rest[t]) by {
            assert(rest[t] == ticks[t]);
        }
        lemma_empty_universe(rest);
        assert(is_silent(ticks[ticks.len() - 1]));
        lemma_silence_keeps_state(LobbyStateView::Absent, ticks.last());
        let before = run_outcome(LobbyStateView::Absent, rest);
        let last = tick_outcome(before.0, ticks.last());
        assert(before.1 + last.1 =~= Seq::<GenerableWc3UdpMessageTypeView>::empty());
    }
}

/// A lobby that answers for the first time is announced and then shown: the
/// tick publishes `NewServerHosted` with the lobby's id, product and
/// version, and then the answer.
pub proof fn lemma_birth(datagrams: Seq<Seq<u8>>, answer: QueryForGamesResponseView)
    requires
        lobby_after_datagrams(LobbyStateView::Absent, datagrams) == LobbyStateView::Present(
            answer,
        ),
    ensures
        tick_outcome(LobbyStateView::Absent, datagrams) == (
            LobbyStateView::Present(answer),
            seq![
                GenerableWc3UdpMessageTypeView::NewServerHosted(
                    NewServerHosted {
                        game_id: answer.game_id,
                        game_type: answer.game_type,
                        game_version: answer.game_version,
                    },
                ),
                GenerableWc3UdpMessageTypeView::QueryForGamesResponse(answer),
            ],
        ),
{
}

/// A lobby that was there and answers again is shown and not announced
/// again: the tick publishes the answer and nothing else.
pub proof fn lemma_steady_state(
    known: QueryForGamesResponseView,
    datagrams: Seq<Seq<u8>>,
    answer: QueryForGamesResponseView,
)
    requires
        lobby_after_datagrams(LobbyStateView::Absent, datagrams) == LobbyStateView::Present(
            answer,
        ),
    ensures
        tick_outcome(LobbyStateView::Present(known), datagrams) == (
            LobbyStateView::Present(answer),
            seq![GenerableWc3UdpMessageTypeView::QueryForGamesResponse(answer)],
        ),
{
}

/// As long as the lobby answers, each tick publishes its answer and nothing
/// else: a run of ticks in each of which the lobby gives the same answer
/// publishes that answer once per tick.
pub proof fn lemma_steady_run(
    known: QueryForGamesResponseView,
    ticks: Seq<Seq<Seq<u8>>>,
    answer: QueryForGamesResponseView,
)
    requires
        ticks.len() > 0,
        forall|t: int|
            0 <= t < ticks.len() ==> lobby_after_datagrams(
                LobbyStateView::Absent,
                #[trigger] ticks[t],
            ) == LobbyStateView::Present(answer),
    ensures
        run_outcome(LobbyStateView::Present(known), ticks).0 == LobbyStateView::Present(answer),
        run_outcome(LobbyStateView::Present(known), ticks).1 == Seq::new(
            ticks.len(),
            |t: int| GenerableWc3UdpMessageTypeView::QueryForGamesResponse(answer),
        ),
    decreases ticks.len(),
{
    let start = LobbyStateView::Present(known);
    let rest = ticks.drop_last();
    let shown = GenerableWc3UdpMessageTypeView::QueryForGamesResponse(answer);
    assert(lobby_after_datagrams(LobbyStateView::Absent, ticks[ticks.len() - 1])
        == LobbyStateView::Present(answer));
    if rest.len() == 0 {
        assert(run_outcome(start, rest) == (start, Seq::<GenerableWc3UdpMessageTypeView>::empty()));
        assert(run_outcome(start, ticks).1 =~= Seq::new(ticks.len(), |t: int| shown));
    } else {
        assert forall|t: int| 0 <= t < rest.len() implies lobby_after_datagrams(
            LobbyStateView::Absent,
            #[trigger] rest[t],
        ) == LobbyStateView::Present(answer) by {
            assert(rest[t] == ticks[t]);
        }
        lemma_steady_run(known, rest, answer);
        assert(run_outcome(start, ticks).1 =~= Seq::new(ticks.len(), |t: int| shown));
    }
}

/// A lobby that was there and no longer answers is reported closed, once:
/// the tick publishes `ServerClosed` with the id it had, and the state is
/// then `Absent`, from which silent ticks publish nothing.
pub proof fn lemma_death(known: QueryForGamesResponseView, datagrams: Seq<Seq<u8>>)
    requires
        is_silent(datagrams),
    ensures
        tick_outcome(LobbyStateView::Present(known), datagrams) == (
            LobbyStateView::Absent,
            seq![
                GenerableWc3UdpMessageTypeView::ServerClosed(
                    ServerClosed { game_id: known.game_id },
                ),
            ],
        ),
{
    lemma_silence_keeps_state(LobbyStateView::Absent, datagrams);
}

/// After a lobby has closed, silence publishes nothing more: a silent tick
/// and then any number of silent ticks publish the one `ServerClosed`.
pub proof fn lemma_death_is_reported_once(
    known: QueryForGamesResponseView,
    ticks: Seq<Seq<Seq<u8>>>,
)
    requires
        ticks.len() > 0,
        forall|t: int| 0 <= t < ticks.len() ==> is_silent(#[trigger] ticks[t]),
    ensures
        run_outcome(LobbyStateView::Present(known), ticks) == (
            LobbyStateView::Absent,
            seq![
                GenerableWc3UdpMessageTypeView::ServerClosed(
                    ServerClosed { game_id: known.game_id },
                ),
            ],
        ),
    decreases ticks.len(),
{
    let start = LobbyStateView::Present(known);
    let rest = ticks.drop_last();
    let closed = GenerableWc3UdpMessageTypeView::ServerClosed(
        ServerClosed { game_id: known.game_id },
    );
    assert(is_silent(ticks[ticks.len() - 1]));
    lemma_silence_keeps_state(LobbyStateView::Absent, ticks.last());
    if rest.len() == 0 {
        assert(run_outcome(start, rest) == (start, Seq::<GenerableWc3UdpMessageTypeView>::empty()));
        assert(run_outcome(start, ticks).1 =~= seq![closed]);
    } else {
        assert forall|t: int| 0 <= t < rest.len() implies is_silent(#[trigger] rest[t]) by {
            assert(rest[t] == ticks[t]);
        }
        lemma_death_is_reported_once(known, rest);
        assert(run_outcome(start, ticks).1 =~= seq![closed]);
    }
}

/// A lobby that goes and comes back is reported closed and then announced
/// anew, whether or not it has the id it had: a silent tick and then a tick
/// with an answer publish `ServerClosed`, `NewServerHosted` and the answer.
pub proof fn lemma_flap(
    known: QueryForGamesResponseView,
    silent: Seq<Seq<u8>>,
    datagrams: Seq<Seq<u8>>,
    answer: QueryForGamesResponseView,
)
    requires
        is_silent(silent),
        lobby_after_datagrams(LobbyStateView::Absent, datagrams) == LobbyStateView::Present(
            answer,
        ),
    ensures
        run_outcome(LobbyStateView::Present(known), seq![silent, datagrams]) == (
            LobbyStateView::Present(answer),
            seq![
                GenerableWc3UdpMessageTypeView::ServerClosed(
                    ServerClosed { game_id: known.game_id },
                ),
                GenerableWc3UdpMessageTypeView::NewServerHosted(announcement_of(answer)),
                GenerableWc3UdpMessageTypeView::QueryForGamesResponse(answer),
            ],
        ),
{
    let start = LobbyStateView::Present(known);
    let ticks = seq![silent, datagrams];
    let first = ticks.drop_last();
    assert(first =~= seq![silent]);
    assert(first.drop_last() =~= Seq::<Seq<Seq<u8>>>::empty());
    assert(first.last() == silent);
    assert(ticks.last() == datagrams);
    lemma_death(known, silent);
    assert(run_outcome(start, first.drop_last()) == (
        start,
        Seq::<GenerableWc3UdpMessageTypeView>::empty(),
    ));
    let after_first = run_outcome(start, first);
    assert(after_first.0 == LobbyStateView::Absent);
    assert(after_first.1 =~= seq![
        GenerableWc3UdpMessageTypeView::ServerClosed(ServerClosed { game_id: known.game_id }),
    ]);
    lemma_birth(datagrams, answer);
    assert(run_outcome(start, ticks).1 =~= seq![
        GenerableWc3UdpMessageTypeView::ServerClosed(ServerClosed { game_id: known.game_id }),
        GenerableWc3UdpMessageTypeView::NewServerHosted(announcement_of(answer)),
        GenerableWc3UdpMessageTypeView::QueryForGamesResponse(answer),
    ]);
}

/// The user hears of a send only when its outcome differs from that of the
/// send before: a send that goes as the last one did gives no notice.
pub proof fn lemma_notice_only_on_change(last: Option<bool>, sent: bool)
    ensures
        notice_for(last, sent) is Silent <==> last == Some(sent),
        notice_for(Some(sent), sent) is Silent,
        notice_for(last, sent) is NowReachable ==> sent,
        notice_for(last, sent) is NowUnreachable ==> !sent,
{
}

/// The query that stands at place `k` among those of one tick: for each
/// version from `first_version` up, one for Reign of Chaos and then one for
/// The Frozen Throne.
pub open spec fn query_at(first_version: u32, k: int) -> QueryForGamesRequest {
    QueryForGamesRequest {
        packet_size: QUERY_FOR_GAMES_REQUEST_SIZE,
        game_type: if k % 2 == 0 {
            GameType::Warcraft3
        } else {
            GameType::TheFrozenThrone
        },
        game_version: (first_version + k / 2) as u32,
        game_id: 0,
    }
}

/// Number of queries of one tick for the versions from `first_version` to
/// `last_version`.
pub open spec fn query_count(first_version: u32, last_version: u32) -> int {
    if first_version <= last_version {
        2 * (last_version - first_version + 1)
    } else {
        0
    }
}

/// The datagrams that the scanner sends in one tick: one query for every
/// version from `first_version` to `last_version` and each of the two
/// products, serialised, in the order of `query_at`.
pub fn game_queries(first_version: u32, last_version: u32) -> (queries: Vec<Vec<u8>>)
    ensures
        queries@.len() == query_count(first_version, last_version),
        forall|k: int|
            0 <= k < queries@.len() ==> (#[trigger] queries@[k])@ == QueryForGamesRequest::wire(
                query_at(first_version, k),
            ),
{
    let mut queries: Vec<Vec<u8>> = Vec::new();
    if first_version > last_version {
        return queries;
    }
    let mut version: u32 = first_version;
    loop
        invariant_except_break
            queries@.len() == 2 * (version - first_version),
        invariant
            first_version <= version <= last_version,
            forall|k: int|
                0 <= k < queries@.len() ==> (#[trigger] queries@[k])@
                    == QueryForGamesRequest::wire(query_at(first_version, k)),
        ensures
            queries@.len() == query_count(first_version, last_version),
            forall|k: int|
                0 <= k < queries@.len() ==> (#[trigger] queries@[k])@
                    == QueryForGamesRequest::wire(query_at(first_version, k)),
        decreases last_version - version,
    {
        let ghost before = queries@.len() as int;
        let classic = QueryForGamesRequest::new(GameType::Warcraft3, version);
        let expansion = QueryForGamesRequest::new(GameType::TheFrozenThrone, version);
        assert(classic == query_at(first_version, before));
        assert(expansion == query_at(first_version, before + 1));
        match classic.serialize() {
            Some(bytes) => queries.push(bytes),
            None => {},
        }
        match expansion.serialize() {
            Some(bytes) => queries.push(bytes),
            None => {},
        }
        if version == last_version {
            break ;
        }
        version += 1;
    }
    queries
}

/// Every query that the scanner sends is sixteen bytes long, states that
/// size, and parses back to itself.
pub proof fn lemma_queries_round_trip(first_version: u32, k: int)
    ensures
        QueryForGamesRequest::wire(query_at(first_version, k)).len()
            == QUERY_FOR_GAMES_REQUEST_SIZE == query_at(first_version, k).packet_size,
        crate::codec::decoded::<QueryForGamesRequest>(
            QueryForGamesRequest::wire(query_at(first_version, k)),
        ) == Some(query_at(first_version, k)),
{
    crate::codec::lemma_round_trip::<QueryForGamesRequest>(query_at(first_version, k));
}

/// What the scanner tells the user after it tried to send a query.
#[derive(Debug, Clone, Copy, PartialEq, Eq, Structural)]
pub enum SendNotice {
    /// Nothing: the outcome is the same as last time.
    Silent,
    /// The query went out, and the last one did not or there was none.
    NowReachable,
    /// The query did not go out, and the last one did or there was none.
    NowUnreachable,
}

/// The notice for a send that succeeded or not (`sent`), where `last` is how
/// the send before went, if there was one.
pub open spec fn notice_for(last: Option<bool>, sent: bool) -> SendNotice {
    if last == Some(sent) {
        SendNotice::Silent
    } else if sent {
        SendNotice::NowReachable
    } else {
        SendNotice::NowUnreachable
    }
}

/// Records how a send went and says what to tell the user: something only
/// when the outcome differs from that of the send before.
pub fn report_send_result(last_successful: &mut Option<bool>, sent: bool) -> (notice: SendNotice)
    ensures
        notice == notice_for(*old(last_successful), sent),
        *final(last_successful) == Some(sent),
{
    let notice = match *last_successful {
        Some(last) => {
            if last == sent {
                SendNotice::Silent
            } else if sent {
                SendNotice::NowReachable
            } else {
                SendNotice::NowUnreachable
            }
        },
        None => {
            if sent {
                SendNotice::NowReachable
            } else {
                SendNotice::NowUnreachable
            }
        },
    };
    *last_successful = Some(sent);
    notice
}

} // verus!
