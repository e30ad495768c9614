use vstd::prelude::*;
use crate::azusa::{ClientPacket, ServerPacket};
use crate::chat::{ChatMessage, ChatMessagePacket};
use crate::rulesets::catch::{CatchJudgement, CatchScore, CatchScoreRecorder};
use crate::score::{count_rank, hit_count, Judgement};

verus! {

/// Who a packet from the game server goes to.
#[derive(Debug, Clone)]
pub enum Target {
    Everyone,
    User(String),
}

/// What the game server does in answer to a client.
#[derive(Debug)]
pub enum ClientAction {
    /// Send a packet.
    Send(Target, ServerPacket),
    /// Store a score of the user in the database.
    StoreScore {
        user_id: u32,
        diff_id: u32,
        hit_count: u32,
        miss_count: u32,
        score: u32,
        top_combo: u32,
    },
    /// Look up the leaderboard of a difficulty and answer with
    /// [`leaderboard_reply`].
    FetchLeaderboard(u32),
    /// The client answered in time; restart its ping clock.
    ResetPing,
}

/// A row of the leaderboard query: the player's name and the columns of their score.
#[derive(Debug, Clone)]
pub struct LeaderboardRow {
    pub username: String,
    pub hit_count: i32,
    pub miss_count: i32,
    pub score: i32,
    pub top_combo: i32,
}

/// A logged-in player as the game server sees it.
pub struct Client {
    pub user_id: u32,
    pub username: String,
}

/// Count of the first entry of `kind` in `judgements`, or 0 if there is none.
pub open spec fn count_of(judgements: Seq<(CatchJudgement, u32)>, kind: CatchJudgement) -> u32
    decreases judgements.len(),
{
    if judgements.len() == 0 {
        0
    } else if judgements[0].0 == kind {
        judgements[0].1
    } else {
        count_of(judgements.drop_first(), kind)
    }
}

/// Looks up the count of `kind` in `judgements`.
pub fn judgement_count(judgements: &Vec<(CatchJudgement, u32)>, kind: CatchJudgement) -> (r: u32)
    ensures
        r == count_of(judgements@, kind),
{
    let mut i: usize = 0;
    assert(judgements@.skip(0) =~= judgements@);
    while i < judgements.len()
        invariant
            i <= judgements@.len(),
            count_of(judgements@, kind) == count_of(judgements@.skip(i as int), kind),
        decreases judgements@.len() - i,
    {
        let (k, c) = judgements[i];
        if k == kind {
            return c;
        }
        assert(judgements@.skip(i as int).drop_first() =~= judgements@.skip(i + 1));
        i = i + 1;
    }
    0
}


/// How the score `s` of user `user_id` is stored: its difficulty, the counts of its first
/// `Perfect` and first `Miss` entries, its score and its top combo.
pub open spec fn stored_score(user_id: u32, s: CatchScore) -> ClientAction {
    ClientAction::StoreScore {
        user_id,
        diff_id: s.diff_id,
        hit_count: count_of(s.judgements@, CatchJudgement::Perfect),
        miss_count: count_of(s.judgements@, CatchJudgement::Miss),
        score: s.score,
        top_combo: s.top_combo,
    }
}

impl Client {
    /// A client that logged in as `username` with the database id `user_id`, with the
    /// packets it is greeted with: two `Connected` (which name no version) and a welcome
    /// message in the chat.
    pub fn new(username: String, user_id: u32) -> (r: (Client, Vec<ClientAction>))
        ensures
            r.0.username@ == username@,
            r.0.user_id == user_id,
            r.1@.len() == 3,
            r.1@[0] matches ClientAction::Send(Target::User(n), ServerPacket::Connected { version })
                && n@ == username@ && version@.len() == 0,
            r.1@[1] matches ClientAction::Send(Target::User(n), ServerPacket::Connected { version })
                && n@ == username@ && version@.len() == 0,
            r.1@[2] matches ClientAction::Send(
                Target::User(n),
                ServerPacket::Chat(ChatMessagePacket(m)),
            ) && n@ == username@ && m.username@ == "Azusa"@ && m.content@ == "Welcome to ctb-web!"@,
    {
        let mut actions = Vec::new();
        actions.push(
            ClientAction::Send(
                Target::User(username.clone()),
                ServerPacket::Connected { version: String::new() },
            ),
        );
        actions.push(
            ClientAction::Send(
                Target::User(username.clone()),
                ServerPacket::Connected { version: String::new() },
            ),
        );
        actions.push(
            ClientAction::Send(
                Target::User(username.clone()),
                ServerPacket::Chat(
                    ChatMessagePacket(
                        ChatMessage {
                            username: "Azusa".to_owned(),
                            content: "Welcome to ctb-web!".to_owned(),
                        },
                    ),
                ),
            ),
        );
        (Client { username, user_id }, actions)
    }

    /// Answers a packet of this client. An echo comes back to the sender; a ping is
    /// answered with a pong and a chat line, and restarts the ping clock; a chat message
    /// goes to everyone under the sender's name; a score is stored with the hit and miss
    /// counts it holds; a leaderboard request is looked up.
    pub fn handle(&mut self, packet: ClientPacket) -> (r: Vec<ClientAction>)
        requires
            !(packet is Login),
            !(packet is Goodbye),
        ensures
            final(self).username@ == old(self).username@,
            final(self).user_id == old(self).user_id,
            match packet {
                ClientPacket::Echo(s) => {
                    &&& r@.len() == 1
                    &&& r@[0] matches ClientAction::Send(Target::User(n), ServerPacket::Echo(e))
                        && n@ == old(self).username@ && e@ == s@
                },
                ClientPacket::Ping => {
                    &&& r@.len() == 3
                    &&& r@[0] matches ClientAction::Send(Target::User(n), ServerPacket::Pong) && n@
                        == old(self).username@
                    &&& r@[1] is ResetPing
                    &&& r@[2] matches ClientAction::Send(
                        Target::User(n),
                        ServerPacket::Chat(ChatMessagePacket(m)),
                    ) && n@ == old(self).username@ && m.username@ == "Azusa"@ && m.content@
                        == "Ping-Pong"@
                },
                ClientPacket::Chat(content) => {
                    &&& r@.len() == 1
                    &&& r@[0] matches ClientAction::Send(
                        Target::Everyone,
                        ServerPacket::Chat(ChatMessagePacket(m)),
                    ) && m.username@ == old(self).username@ && m.content@ == content@
                },
                ClientPacket::Submit(score) => r@.len() == 1 && r@[0] == stored_score(
                    old(self).user_id,
                    score,
                ),
                ClientPacket::RequestLeaderboard(diff_id) => r@.len() == 1 && r@[0]
                    == ClientAction::FetchLeaderboard(diff_id),
                _ => false,
            },
    {
        let mut actions = Vec::new();
        match packet {
            ClientPacket::Echo(s) => {
                actions.push(
                    ClientAction::Send(Target::User(self.username.clone()), ServerPacket::Echo(s)),
                );
            },
            ClientPacket::Ping => {
                actions.push(
                    ClientAction::Send(Target::User(self.username.clone()), ServerPacket::Pong),
                );
                actions.push(ClientAction::ResetPing);
                actions.push(
                    ClientAction::Send(
                        Target::User(self.username.clone()),
                        ServerPacket::Chat(
                            ChatMessagePacket(
                                ChatMessage {
                                    username: "Azusa".to_owned(),
                                    content: "Ping-Pong".to_owned(),
                                },
                            ),
                        ),
                    ),
                );
            },
            ClientPacket::Chat(content) => {
                actions.push(
                    ClientAction::Send(
                        Target::Everyone,
                        ServerPacket::Chat(
                            ChatMessagePacket(
                                ChatMessage { username: self.username.clone(), content },
                            ),
                        ),
                    ),
                );
            },
            ClientPacket::Submit(score) => {
                let hit_count = judgement_count(&score.judgements, CatchJudgement::Perfect);
                let miss_count = judgement_count(&score.judgements, CatchJudgement::Miss);
                actions.push(
                    ClientAction::StoreScore {
                        user_id: self.user_id,
                        diff_id: score.diff_id,
                        hit_count,
                        miss_count,
                        score: score.score,
                        top_combo: score.top_combo,
                    },
                );
            },
            ClientPacket::RequestLeaderboard(diff_id) => {
                actions.push(ClientAction::FetchLeaderboard(diff_id));
            },
            ClientPacket::Login(_) => {},
            ClientPacket::Goodbye => {},
        }
        actions
    }
}

/// The score a leaderboard row stands for, or `None` if one of its counts is negative.
pub open spec fn row_score(diff_id: u32, row: LeaderboardRow) -> Option<
    (Seq<char>, u32, u32, u32, u32),
> {
    if row.hit_count < 0 || row.miss_count < 0 || row.score < 0 || row.top_combo < 0 {
        None
    } else {
        Some(
            (
                row.username@,
                row.hit_count as u32,
                row.miss_count as u32,
                row.score as u32,
                row.top_combo as u32,
            ),
        )
    }
}

/// Whether `s` is the passed score of difficulty `diff_id` that `row` describes.
pub open spec fn score_matches_row(s: CatchScore, diff_id: u32, row: LeaderboardRow) -> bool {
    &&& s.username matches Some(name) && name@ == row.username@
    &&& s.diff_id == diff_id
    &&& s.judgements@ == seq![
        (CatchJudgement::Perfect, row.hit_count as u32),
        (CatchJudgement::Miss, row.miss_count as u32),
    ]
    &&& s.score == row.score as u32
    &&& s.top_combo == row.top_combo as u32
    &&& s.passed
}

/// The row has no negative column.
pub open spec fn row_ok(row: LeaderboardRow) -> bool {
    row.hit_count >= 0 && row.miss_count >= 0 && row.score >= 0 && row.top_combo >= 0
}

/// The leaderboard packet for difficulty `diff_id` built from the rows of the query, in
/// their order; `None` if a row holds a negative count.
pub fn leaderboard_reply(diff_id: u32, rows: Vec<LeaderboardRow>) -> (r: Option<ServerPacket>)
    ensures
        r is Some <==> (forall|i: int| 0 <= i < rows@.len() ==> row_ok(#[trigger] rows@[i])),
        r matches Some(p) ==> {
            &&& p matches ServerPacket::Leaderboard { diff_id: d, scores }
            &&& d == diff_id
            &&& scores@.len() == rows@.len()
            &&& forall|i: int|
                0 <= i < rows@.len() ==> score_matches_row(#[trigger] scores@[i], diff_id, rows@[i])
        },
{
    let mut scores: Vec<CatchScore> = Vec::new();
    let mut i: usize = 0;
    while i < rows.len()
        invariant
            i <= rows@.len(),
            scores@.len() == i,
            forall|k: int| 0 <= k < i ==> row_ok(#[trigger] rows@[k]),
            forall|k: int| 0 <= k < i ==> score_matches_row(#[trigger] scores@[k], diff_id, rows@[k]),
        decreases rows@.len() - i,
    {
        let row = &rows[i];
        if row.hit_count < 0 || row.miss_count < 0 || row.score < 0 || row.top_combo < 0 {
            return None;
        }
        let judgements = vec![
            (CatchJudgement::Perfect, row.hit_count as u32),
            (CatchJudgement::Miss, row.miss_count as u32),
        ];
        let s = CatchScore {
            username: Some(row.username.clone()),
            diff_id,
            top_combo: row.top_combo as u32,
            judgements,
            score: row.score as u32,
            passed: true,
        };
        assert(s.judgements@ =~= seq![
            (CatchJudgement::Perfect, row.hit_count as u32),
            (CatchJudgement::Miss, row.miss_count as u32),
        ]);
        scores.push(s);
        i = i + 1;
    }
    Some(ServerPacket::Leaderboard { diff_id, scores })
}

/// The clients a packet for `target` goes to, as positions in `usernames`: everyone, or
/// the first client with the named user; `None` if no client has that name.
pub fn recipients(target: &Target, usernames: &Vec<String>) -> (r: Option<Vec<usize>>)
    ensures
        match target {
            Target::Everyone => r matches Some(v) && v@.len() == usernames@.len() && forall|i: int|
                0 <= i < v@.len() ==> #[trigger] v@[i] == i,
            Target::User(name) => match r {
                Some(v) => v@.len() == 1 && v@[0] < usernames@.len() && usernames@[v@[0] as int]@
                    == name@ && forall|k: int|
                    0 <= k < v@[0] ==> (#[trigger] usernames@[k])@ != name@,
                None => forall|k: int| 0 <= k < usernames@.len() ==> (#[trigger] usernames@[k])@ != name@,
            },
        },
{
    match target {
        Target::Everyone => {
            let mut v: Vec<usize> = Vec::new();
            let mut i: usize = 0;
            while i < usernames.len()
                invariant
                    i <= usernames@.len(),
                    v@.len() == i,
                    forall|k: int| 0 <= k < i ==> #[trigger] v@[k] == k,
                decreases usernames@.len() - i,
            {
                v.push(i);
                i = i + 1;
            }
            Some(v)
        },
        Target::User(name) => {
            let mut i: usize = 0;
            while i < usernames.len()
                invariant
                    i <= usernames@.len(),
                    *target == Target::User(*name),
                    forall|k: int| 0 <= k < i ==> (#[trigger] usernames@[k])@ != name@,
                decreases usernames@.len() - i,
            {
                if usernames[i] == *name {
                    let mut v: Vec<usize> = Vec::new();
                    v.push(i);
                    return Some(v);
                }
                i = i + 1;
            }
            None
        },
    }
}

proof fn lemma_catch_hits(h: Seq<CatchJudgement>)
    ensures
        count_rank(h, 0) == hit_count(h),
        count_rank(h, 1) + hit_count(h) == h.len(),
    decreases h.len(),
{
    if h.len() > 0 {
        lemma_catch_hits(h.drop_last());
    }
}

/// The counts a stored score carries are those the recorder kept: the hits it registered
/// and the misses it registered.
pub proof fn lemma_submitted_counts(rec: &CatchScoreRecorder)
    requires
        rec.wf(),
    ensures
        count_of(rec.judgements@, CatchJudgement::Perfect) == hit_count(rec.history()),
        count_of(rec.judgements@, CatchJudgement::Miss) + hit_count(rec.history())
            == rec.history().len(),
{
    lemma_catch_hits(rec.history());
    let j = rec.judgements@;
    assert(j[0].0.rank() == 0);
    assert(j[1].0.rank() == 1);
    assert(j.drop_first()[0] == j[1]);
    reveal_with_fuel(count_of, 2);
}

/// A score with its counts in rank order (as a recorder gives them) that is stored, and
/// then read back as a leaderboard row with the stored columns, comes back with the same
/// difficulty, counts, score and top combo.
pub proof fn lemma_leaderboard_reads_back_stored_score(
    user_id: u32,
    s: CatchScore,
    row: LeaderboardRow,
)
    requires
        s.judgements@.len() == 2,
        s.judgements@[0].0 == CatchJudgement::Perfect,
        s.judgements@[1].0 == CatchJudgement::Miss,
        stored_score(user_id, s) matches ClientAction::StoreScore {
            hit_count,
            miss_count,
            score,
            top_combo,
            ..
        } && row.hit_count == hit_count && row.miss_count == miss_count && row.score == score
            && row.top_combo == top_combo,
    ensures
        row_ok(row),
        forall|t: CatchScore|
            score_matches_row(t, s.diff_id, row) ==> {
                &&& t.diff_id == s.diff_id
                &&& t.judgements@ == s.judgements@
                &&& t.score == s.score
                &&& t.top_combo == s.top_combo
            },
{
    let j = s.judgements@;
    assert(j.drop_first()[0] == j[1]);
    reveal_with_fuel(count_of, 2);
    assert forall|t: CatchScore| score_matches_row(t, s.diff_id, row) implies t.judgements@
        == s.judgements@ by {
        assert(t.judgements@ =~= s.judgements@);
    }
}

} // verus!
