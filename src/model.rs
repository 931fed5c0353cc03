//! The parts of the API's resources that the library decides on: links between
//! resources, category kinds, leaderboard heads and read marks.

use vstd::prelude::*;
use crate::ApiError;

verus! {

/// A link from one resource to another.
#[derive(Debug, Clone)]
pub struct Link {
    pub rel: String,
    pub uri: String,
}

/// The link points at the resource's game.
pub open spec fn is_game_link(l: Link) -> bool {
    l.rel@ == "game"@
}

/// The number of game links among `links`.
pub open spec fn game_link_count(links: Seq<Link>) -> nat
    decreases links.len(),
{
    if links.len() == 0 {
        0
    } else {
        game_link_count(links.drop_last()) + if is_game_link(links.last()) {
            1nat
        } else {
            0nat
        }
    }
}

proof fn lemma_single_game_link(links: Seq<Link>, i: int)
    requires
        0 <= i < links.len(),
        is_game_link(links[i]),
        forall|j: int| 0 <= j < links.len() && j != i ==> !is_game_link(#[trigger] links[j]),
    ensures
        game_link_count(links) == 1,
    decreases links.len(),
{
    if i == links.len() - 1 {
        lemma_no_game_link(links.drop_last());
    } else {
        assert(!is_game_link(links.last()));
        lemma_single_game_link(links.drop_last(), i);
    }
}

proof fn lemma_no_game_link(links: Seq<Link>)
    requires
        forall|j: int| 0 <= j < links.len() ==> !is_game_link(#[trigger] links[j]),
    ensures
        game_link_count(links) == 0,
    decreases links.len(),
{
    if links.len() > 0 {
        lemma_no_game_link(links.drop_last());
    }
}

proof fn lemma_two_game_links(links: Seq<Link>, i: int, j: int)
    requires
        0 <= i < j < links.len(),
        is_game_link(links[i]),
        is_game_link(links[j]),
    ensures
        game_link_count(links) >= 2,
    decreases links.len(),
{
    lemma_count_monotone(links, j + 1);
    lemma_count_at_least_one(links.take(j), i);
    assert(links.take(j + 1).drop_last() =~= links.take(j));
}

proof fn lemma_count_at_least_one(links: Seq<Link>, i: int)
    requires
        0 <= i < links.len(),
        is_game_link(links[i]),
    ensures
        game_link_count(links) >= 1,
    decreases links.len(),
{
    if i < links.len() - 1 {
        lemma_count_at_least_one(links.drop_last(), i);
    }
}

proof fn lemma_count_monotone(links: Seq<Link>, n: int)
    requires
        0 <= n <= links.len(),
    ensures
        game_link_count(links.take(n)) <= game_link_count(links),
    decreases links.len(),
{
    if n < links.len() {
        lemma_count_monotone(links.drop_last(), n);
        assert(links.drop_last().take(n) =~= links.take(n));
    } else {
        assert(links.take(n) =~= links);
    }
}

/// The URI of the one game link among `links`; none, or more than one, is an
/// error.
pub fn game_link(links: &Vec<Link>) -> (r: Result<String, ApiError>)
    ensures
        r is Ok <==> game_link_count(links@) == 1,
        r matches Ok(u) ==> exists|i: int|
            0 <= i < links@.len() && is_game_link(links@[i]) && u@ == links@[i].uri@,
        r matches Err(e) ==> e is MissingGameRel,
{
    let game = String::from_str("game");
    let mut found: Option<usize> = None;
    let mut i: usize = 0;
    while i < links.len()
        invariant
            game@ == "game"@,
            i <= links@.len(),
            found matches Some(f) ==> f < i && is_game_link(links@[f as int]) && forall|j: int|
                0 <= j < i && j != f ==> !is_game_link(#[trigger] links@[j]),
            found is None ==> forall|j: int| 0 <= j < i ==> !is_game_link(#[trigger] links@[j]),
        decreases links@.len() - i,
    {
        if links[i].rel == game {
            match found {
                Some(f) => {
                    proof {
                        lemma_two_game_links(links@, f as int, i as int);
                    }
                    return Err(ApiError::MissingGameRel);
                },
                None => {
                    found = Some(i);
                },
            }
        }
        i += 1;
    }
    match found {
        Some(f) => {
            proof {
                lemma_single_game_link(links@, f as int);
            }
            Ok(links[f].uri.clone())
        },
        None => {
            proof {
                lemma_no_game_link(links@);
            }
            Err(ApiError::MissingGameRel)
        },
    }
}

/// Whether a category covers whole games or single levels.
#[derive(Debug, Clone, Copy, PartialEq, Eq, Structural)]
pub enum CategoryType {
    PerGame,
    PerLevel,
}

/// The data of a category, one of the rulesets for speedruns.
#[derive(Debug, Clone)]
pub struct CategoryData {
    pub id: String,
    pub links: Vec<Link>,
    pub name: String,
    pub cat_type: CategoryType,
}

impl CategoryData {
    /// Returns this category's API ID.
    pub fn id(&self) -> (r: &str)
        ensures
            r@ == self.id@,
    {
        self.id.as_str()
    }

    /// Returns `true` if this is an IL (individual level) category.
    pub fn is_il(&self) -> (r: bool)
        ensures
            r == (self.cat_type == CategoryType::PerLevel),
    {
        self.cat_type == CategoryType::PerLevel
    }

    /// The URI of the game that this category belongs to.
    pub fn game_uri(&self) -> (r: Result<String, ApiError>)
        ensures
            r is Ok <==> game_link_count(self.links@) == 1,
            r matches Ok(u) ==> exists|i: int|
                0 <= i < self.links@.len() && is_game_link(self.links@[i]) && u@ == self.links@[i].uri@,
            r matches Err(e) ==> e is MissingGameRel,
    {
        game_link(&self.links)
    }
}

/// The data of a level, one of the stages of a game.
#[derive(Debug, Clone)]
pub struct LevelData {
    pub id: String,
    pub links: Vec<Link>,
    pub name: String,
}

impl LevelData {
    /// Returns this level's API ID.
    pub fn id(&self) -> (r: &str)
        ensures
            r@ == self.id@,
    {
        self.id.as_str()
    }

    /// The URI of the game that this level belongs to.
    pub fn game_uri(&self) -> (r: Result<String, ApiError>)
        ensures
            r is Ok <==> game_link_count(self.links@) == 1,
            r matches Ok(u) ==> exists|i: int|
                0 <= i < self.links@.len() && is_game_link(self.links@[i]) && u@ == self.links@[i].uri@,
            r matches Err(e) ==> e is MissingGameRel,
    {
        game_link(&self.links)
    }
}

/// One place of a leaderboard.
#[derive(Debug, Clone)]
pub struct LeaderboardEntry<R> {
    pub place: usize,
    pub run: R,
}

/// A leaderboard: its runs, best first.
#[derive(Debug, Clone)]
pub struct Leaderboard<R> {
    pub runs: Vec<LeaderboardEntry<R>>,
}

impl<R> Leaderboard<R> {
    /// The runs, in leaderboard order.
    pub fn into_runs(self) -> (r: Vec<R>)
        ensures
            r@.len() == self.runs@.len(),
            forall|i: int| 0 <= i < r@.len() ==> r@[i] == #[trigger] self.runs@[i].run,
    {
        let ghost runs = self.runs@;
        let mut entries = self.runs;
        let mut reversed: Vec<R> = Vec::new();
        while entries.len() > 0
            invariant
                entries@.len() + reversed@.len() == runs.len(),
                forall|i: int| 0 <= i < entries@.len() ==> entries@[i] == runs[i],
                forall|i: int|
                    0 <= i < reversed@.len() ==> reversed@[i] == #[trigger] runs[runs.len() - 1
                        - i].run,
            decreases entries@.len(),
        {
            let e = entries.pop().unwrap();
            reversed.push(e.run);
        }
        let mut r: Vec<R> = Vec::new();
        while reversed.len() > 0
            invariant
                r@.len() + reversed@.len() == runs.len(),
                forall|i: int|
                    0 <= i < reversed@.len() ==> reversed@[i] == #[trigger] runs[runs.len() - 1
                        - i].run,
                forall|i: int| 0 <= i < r@.len() ==> r@[i] == #[trigger] runs[i].run,
            decreases reversed@.len(),
        {
            let ghost k = reversed@.len() - 1;
            assert(reversed@[k] == runs[runs.len() - 1 - k].run);
            let x = reversed.pop().unwrap();
            assert(runs.len() - 1 - k == r@.len());
            r.push(x);
        }
        r
    }

    /// The first place, the world record; none on an empty leaderboard.
    pub fn wr(self) -> (r: Option<R>)
        ensures
            self.runs@.len() == 0 ==> r is None,
            self.runs@.len() > 0 ==> r == Some(self.runs@[0].run),
    {
        let mut runs = self.runs;
        if runs.len() == 0 {
            return None;
        }
        Some(runs.remove(0).run)
    }

    /// Whether the world record is tied: the second run also holds first place.
    pub fn wr_is_tied(&self) -> (r: bool)
        ensures
            r == (self.runs@.len() > 1 && self.runs@[1].place == 1),
    {
        self.runs.len() > 1 && self.runs[1].place == 1
    }
}

/// Whether a notification has been read.
#[derive(Debug, Clone, Copy, PartialEq, Eq, Structural)]
pub enum ReadStatus {
    Read,
    Unread,
}

impl ReadStatus {
    /// `true` for a read notification.
    pub fn is_read(self) -> (r: bool)
        ensures
            r == (self == ReadStatus::Read),
    {
        match self {
            ReadStatus::Read => true,
            ReadStatus::Unread => false,
        }
    }
}

} // verus!
