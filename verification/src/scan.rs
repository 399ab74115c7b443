//! Deciding which way up a scanned document is, and what that means for
//! writing onto it.
//!
//! Page metadata cannot say which way up a scan is (a landscape page reads
//! the same recorded at 0 or at 180 degrees), so each turn is tried until the
//! labels can be read. A document is scanned in one pass, so the turn that
//! made its first readable page readable is the only one tried on the rest.

use vstd::prelude::*;

verus! {

/// The turns tried, in order, before one has been found to work.
pub open spec fn all_turns() -> Seq<i32> {
    seq![0i32, 90, 180, 270]
}

/// `a` modulo 360, in `0..360`.
pub open spec fn degrees(a: int) -> int {
    a % 360
}

/// The search for the turn that makes a document's pages readable.
pub struct Orientation {
    trial: Option<i32>,
}

impl Orientation {
    /// The turn that made the first readable page readable, once there is one.
    pub closed spec fn found(&self) -> Option<i32> {
        self.trial
    }

    /// Nothing tried yet.
    pub fn new() -> (r: Orientation)
        ensures
            r.found() is None,
    {
        Orientation { trial: None }
    }

    /// The turns to try on the next page, in order: all four until one has
    /// worked, then only that one.
    pub fn candidates(&self) -> (r: Vec<i32>)
        ensures
            r@ == match self.found() {
                None => all_turns(),
                Some(turn) => seq![turn],
            },
    {
        match self.trial {
            None => {
                let r = vec![0i32, 90, 180, 270];
                assert(r@ =~= all_turns());
                r
            },
            Some(turn) => {
                let r = vec![turn];
                assert(r@ =~= seq![turn]);
                r
            },
        }
    }

    /// The search through this page's candidate turns.
    pub fn page_search(&self) -> (r: PageSearch)
        ensures
            r.turns() == match self.found() {
                None => all_turns(),
                Some(turn) => seq![turn],
            },
            r.tried() == 0,
            r.found() is None,
    {
        PageSearch { turns: self.candidates(), tried: 0, found: None }
    }

    /// Record that a page was read turned by `turn`, or not at all. The
    /// first turn that worked is kept for good.
    pub fn record(&mut self, turn: Option<i32>)
        ensures
            final(self).found() == recorded(old(self).found(), turn),
    {
        if self.trial.is_none() {
            self.trial = turn;
        }
    }
}

/// The turns tried on one page, in order, until one makes it readable.
pub struct PageSearch {
    turns: Vec<i32>,
    tried: usize,
    found: Option<i32>,
}

impl PageSearch {
    /// No more turns are handed out than there are.
    #[verifier::type_invariant]
    spec fn inv(&self) -> bool {
        self.tried <= self.turns@.len()
    }

    /// The turns this page may be tried at, in order.
    pub closed spec fn turns(&self) -> Seq<i32> {
        self.turns@
    }

    /// How many of them have been handed out.
    pub closed spec fn tried(&self) -> nat {
        self.tried as nat
    }

    /// The turn that made the page readable, once one has.
    pub closed spec fn found(&self) -> Option<i32> {
        self.found
    }

    /// The next turn to try, or `None` once one has worked or all have
    /// been tried.
    pub fn next_turn(&mut self) -> (r: Option<i32>)
        ensures
            final(self).turns() == old(self).turns(),
            final(self).found() == old(self).found(),
            if old(self).found() is None && old(self).tried() < old(self).turns().len() {
                &&& r == Some(old(self).turns()[old(self).tried() as int])
                &&& final(self).tried() == old(self).tried() + 1
            } else {
                &&& r is None
                &&& final(self).tried() == old(self).tried()
            },
    {
        proof {
            use_type_invariant(&*self);
        }
        if self.found.is_none() && self.tried < self.turns.len() {
            let turn = self.turns[self.tried];
            self.tried = self.tried + 1;
            Some(turn)
        } else {
            None
        }
    }

    /// Record that the turn handed out last made the page readable.
    pub fn succeeded(&mut self)
        ensures
            final(self).turns() == old(self).turns(),
            final(self).tried() == old(self).tried(),
            final(self).found() == if old(self).found() is None && old(self).tried() > 0 {
                Some(old(self).turns()[old(self).tried() - 1])
            } else {
                old(self).found()
            },
    {
        proof {
            use_type_invariant(&*self);
        }
        if self.found.is_none() && self.tried > 0 {
            self.found = Some(self.turns[self.tried - 1]);
        }
    }

    /// The turn that made the page readable, if one did.
    pub fn found_turn(&self) -> (r: Option<i32>)
        ensures
            r == self.found(),
    {
        self.found
    }
}

/// What is known after recording `turn` on top of `found`.
pub open spec fn recorded(found: Option<i32>, turn: Option<i32>) -> Option<i32> {
    match found {
        Some(kept) => Some(kept),
        None => turn,
    }
}

/// What is known after recording the pages' outcomes `turns`, in order.
pub open spec fn recorded_all(found: Option<i32>, turns: Seq<Option<i32>>) -> Option<i32>
    decreases turns.len(),
{
    if turns.len() == 0 {
        found
    } else {
        recorded_all(recorded(found, turns[0]), turns.skip(1))
    }
}

/// The first turn that worked on some page, if any did.
pub open spec fn first_found(turns: Seq<Option<i32>>) -> Option<i32>
    decreases turns.len(),
{
    if turns.len() == 0 {
        None
    } else {
        match turns[0] {
            Some(turn) => Some(turn),
            None => first_found(turns.skip(1)),
        }
    }
}

/// Once a turn has been found, no later page changes it.
pub proof fn lemma_found_turn_is_kept(turn: i32, turns: Seq<Option<i32>>)
    ensures
        recorded_all(Some(turn), turns) == Some(turn),
    decreases turns.len(),
{
    if turns.len() > 0 {
        lemma_found_turn_is_kept(turn, turns.skip(1));
    }
}

/// Over a whole document, the turn kept is that of the first page that
/// could be read.
pub proof fn lemma_first_readable_page_decides(turns: Seq<Option<i32>>)
    ensures
        recorded_all(None, turns) == first_found(turns),
    decreases turns.len(),
{
    if turns.len() > 0 {
        match turns[0] {
            Some(turn) => lemma_found_turn_is_kept(turn, turns.skip(1)),
            None => lemma_first_readable_page_decides(turns.skip(1)),
        }
    }
}

/// How far a page is turned in all: its own `/Rotate`, then the trial turn
/// that made it readable, in degrees in `0..360`.
pub fn upright_rotation(page_rotation: i32, trial: i32) -> (r: i32)
    ensures
        r == degrees(page_rotation + trial),
        0 <= r < 360,
{
    let total: i64 = page_rotation as i64 + trial as i64;
    let r: i64 = match total.checked_rem_euclid(360) {
        Some(r) => r,
        None => 0,
    };
    r as i32
}

/// How upright page space sits in a page's own user space.
pub enum Turn {
    /// The two coincide.
    Upright,
    /// Upright space is user space turned half way round.
    HalfTurn,
}

/// A page that would need a quarter turn; signing does not support that,
/// since it also swaps the page's width and height.
#[derive(Debug)]
pub struct QuarterTurn(pub i32);

/// What a page turned by `rotation` degrees needs.
pub open spec fn turn_for(rotation: int) -> Result<Turn, int> {
    let d = degrees(rotation);
    if d == 0 {
        Ok(Turn::Upright)
    } else if d == 180 {
        Ok(Turn::HalfTurn)
    } else {
        Err(d)
    }
}

/// How upright page space sits inside a page's own user space: the page's
/// total turn, and its upright size (in whatever units the caller measures).
pub struct Frame<S> {
    /// Clockwise degrees from user space to upright.
    pub rotation: i32,
    pub size: S,
}

impl<S> Frame<S> {
    /// The turn between upright space and user space, or the quarter turn
    /// that is refused.
    pub fn turn(&self) -> (r: Result<Turn, QuarterTurn>)
        ensures
            match turn_for(self.rotation as int) {
                Ok(t) => r == Ok::<Turn, QuarterTurn>(t),
                Err(d) => r matches Err(QuarterTurn(q)) && q == d,
            },
    {
        let d = upright_rotation(self.rotation, 0);
        if d == 0 {
            Ok(Turn::Upright)
        } else if d == 180 {
            Ok(Turn::HalfTurn)
        } else {
            Err(QuarterTurn(d))
        }
    }
}

/// The file a model is cached under: the last segment of its URL.
pub open spec fn last_segment(url: Seq<char>) -> Seq<char>
    decreases url.len(),
{
    if url.len() == 0 {
        seq![]
    } else if url.last() == '/' {
        seq![]
    } else {
        last_segment(url.drop_last()).push(url.last())
    }
}

/// The name a model fetched from `url` is cached under: what follows the
/// URL's last `/`, or the whole URL if it has none.
pub fn model_file_name(url: &str) -> (r: String)
    ensures
        r@ == last_segment(url@),
{
    let chars = crate::text::chars_of(url);
    let mut start: usize = chars.len();
    assert(url@.take(start as int) =~= url@);
    assert(url@.skip(start as int) =~= Seq::<char>::empty());
    while start > 0 && chars[start - 1] != '/'
        invariant
            chars@ == url@,
            start <= chars@.len(),
            last_segment(url@) == last_segment(url@.take(start as int)) + url@.skip(start as int),
        decreases start,
    {
        proof {
            let head = url@.take(start as int);
            assert(head.drop_last() =~= url@.take(start - 1));
            assert(head.last() == url@[start - 1]);
            assert(url@.skip(start - 1) =~= seq![url@[start - 1]] + url@.skip(start as int));
            assert(last_segment(head) == last_segment(head.drop_last()).push(head.last()));
            assert(last_segment(head.drop_last()).push(head.last()) + url@.skip(start as int)
                =~= last_segment(head.drop_last()) + url@.skip(start - 1));
        }
        start -= 1;
    }
    proof {
        let head = url@.take(start as int);
        if start > 0 {
            assert(head.last() == '/');
        }
        assert(last_segment(head) =~= Seq::<char>::empty());
        assert(last_segment(url@) =~= url@.skip(start as int));
    }
    let mut r = String::new();
    let mut i = start;
    while i < chars.len()
        invariant
            chars@ == url@,
            start <= i <= chars@.len(),
            r@ == url@.subrange(start as int, i as int),
        decreases chars@.len() - i,
    {
        crate::text::push_char(&mut r, chars[i]);
        assert(url@.subrange(start as int, i + 1) =~= url@.subrange(start as int, i as int).push(chars@[i as int]));
        i += 1;
    }
    assert(url@.subrange(start as int, url@.len() as int) =~= url@.skip(start as int));
    r
}

} // verus!
