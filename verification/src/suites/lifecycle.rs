//! Randomized COM lifecycle state machine.
//!
//! Random but reproducible orderings of the operations that a host can legally
//! perform, on the theory that the dangerous states are the ones nobody thought
//! to write a test for: a provider released before its factory, a server lock
//! held across a render, an object created on one thread and released on
//! another.
//!
//! A session decides what to do next and judges the answers; carrying the
//! operations out is left to its caller. Every choice comes from the seed, so a
//! failure is reproduced exactly from the number that the run prints.

use vstd::prelude::*;
use crate::hresult::S_OK;
use crate::metrics::Delta;
use crate::numbers::{
    dec, dec_int, decimal, decimal_int, hex32, hex32_text, lemma_dec_digits,
    parse_reads_back_decimal, parse_usize,
};
use crate::report::{one_check, outcome_of, Outcome, Report, ReportView};
use crate::rng::{
    draw_below, draws_stay_below, seed_state, shifting_keeps_values_apart,
    spreading_keeps_values_apart, state_below, step, wrapping_product, wrapping_sum, Rng,
    NONZERO_STATE,
};
use crate::suites::cases::{
    after_no_match, all_differ, any_wanted, lets_any_through, lets_through, optional_text, wanted,
};
use crate::text::{
    begins_with, bool_text, bool_word, chars_of, five, join, joined, joining_keeps_every_item,
    lemma_occurs_in_more, no_texts, occurs, push_text, same, texts, three, two,
};

verus! {

// ---------------------------------------------------------------
//                          Operations
// ---------------------------------------------------------------

/// One operation in a generated sequence.
#[derive(Debug, Clone, Copy, PartialEq, Eq, Structural)]
pub enum Op {
    CreateFactory,
    CreateProvider,
    InitializeProvider,
    RenderProvider,
    QueryUnsupported,
    ReleaseFactory,
    ReleaseProvider,
    LockServer(bool),
    PollCanUnload,
    Sleep(u32),
}

impl Op {
    pub open spec fn word(self) -> Seq<char> {
        match self {
            Op::CreateFactory => "CreateFactory"@,
            Op::CreateProvider => "CreateProvider"@,
            Op::InitializeProvider => "InitializeProvider"@,
            Op::RenderProvider => "RenderProvider"@,
            Op::QueryUnsupported => "QueryUnsupported"@,
            Op::ReleaseFactory => "ReleaseFactory"@,
            Op::ReleaseProvider => "ReleaseProvider"@,
            Op::LockServer(on) => "LockServer("@ + bool_word(on) + ")"@,
            Op::PollCanUnload => "PollCanUnload"@,
            Op::Sleep(ms) => "Sleep("@ + dec(ms as nat) + ")"@,
        }
    }

    pub fn text(self) -> (s: String)
        ensures
            s@ == self.word(),
    {
        match self {
            Op::CreateFactory => "CreateFactory".to_owned(),
            Op::CreateProvider => "CreateProvider".to_owned(),
            Op::InitializeProvider => "InitializeProvider".to_owned(),
            Op::RenderProvider => "RenderProvider".to_owned(),
            Op::QueryUnsupported => "QueryUnsupported".to_owned(),
            Op::ReleaseFactory => "ReleaseFactory".to_owned(),
            Op::ReleaseProvider => "ReleaseProvider".to_owned(),
            Op::LockServer(on) => three("LockServer(", bool_text(on), ")"),
            Op::PollCanUnload => "PollCanUnload".to_owned(),
            Op::Sleep(ms) => three("Sleep(", decimal(ms as u64).as_str(), ")"),
        }
    }
}

/// The operation that a draw in `0..100` stands for, with `locks` server locks
/// outstanding.
pub open spec fn op_for(draw: nat, locks: int) -> Op {
    if draw <= 9 {
        Op::CreateFactory
    } else if draw <= 29 {
        Op::CreateProvider
    } else if draw <= 47 {
        Op::InitializeProvider
    } else if draw <= 67 {
        Op::RenderProvider
    } else if draw <= 71 {
        Op::QueryUnsupported
    } else if draw <= 78 {
        Op::ReleaseFactory
    } else if draw <= 87 {
        Op::ReleaseProvider
    } else if draw <= 91 {
        Op::LockServer(true)
    } else if draw <= 94 {
        if locks > 0 {
            Op::LockServer(false)
        } else {
            // Nothing to unlock, so something else that is legal.
            Op::PollCanUnload
        }
    } else if draw <= 98 {
        Op::PollCanUnload
    } else {
        Op::Sleep(1)
    }
}

/// Picks the next operation, restricted to sequences that a correct client could
/// produce: an unlock is only legal when a matching lock is outstanding.
pub fn random_op(rng: &mut Rng, outstanding_locks: i32) -> (op: Op)
    ensures
        op == op_for(draw_below(old(rng)@, 100), outstanding_locks as int),
        final(rng)@ == state_below(old(rng)@, 100),
{
    let draw: usize = rng.below(100);
    if draw <= 9 {
        Op::CreateFactory
    } else if draw <= 29 {
        Op::CreateProvider
    } else if draw <= 47 {
        Op::InitializeProvider
    } else if draw <= 67 {
        Op::RenderProvider
    } else if draw <= 71 {
        Op::QueryUnsupported
    } else if draw <= 78 {
        Op::ReleaseFactory
    } else if draw <= 87 {
        Op::ReleaseProvider
    } else if draw <= 91 {
        Op::LockServer(true)
    } else if draw <= 94 {
        if outstanding_locks > 0 {
            Op::LockServer(false)
        } else {
            Op::PollCanUnload
        }
    } else if draw <= 98 {
        Op::PollCanUnload
    } else {
        Op::Sleep(1)
    }
}

/// A generated sequence never unlocks what it has not locked.
pub proof fn unlocks_are_balanced(draw: nat, locks: int)
    ensures
        op_for(draw, locks) == Op::LockServer(false) ==> locks > 0,
{
}

// ---------------------------------------------------------------
//                             World
// ---------------------------------------------------------------

/// How many factories a client holds at most.
pub const MAX_FACTORIES: usize = 8;

/// How many providers a client holds at most.
pub const MAX_PROVIDERS: usize = 16;

/// Live objects held by one simulated client.
pub struct World {
    factories: usize,
    /// For each provider, whether it has been initialised.
    providers: Vec<bool>,
    outstanding_locks: i32,
}

/// What a `World` stands for.
pub struct WorldView {
    pub factories: nat,
    pub providers: Seq<bool>,
    pub locks: int,
}

impl View for World {
    type V = WorldView;

    closed spec fn view(&self) -> WorldView {
        WorldView {
            factories: self.factories as nat,
            providers: self.providers@,
            locks: self.outstanding_locks as int,
        }
    }
}

/// Something that has to be done outside, and that a session waits for.
#[derive(Debug, Clone, Copy, PartialEq, Eq, Structural)]
pub enum Action {
    /// Nothing to do.
    Idle,
    /// Ask the library for a class factory and keep it as the last one.
    MakeFactory,
    /// Have the first factory create a provider and keep it as the last one.
    Instantiate,
    /// Create a provider through a factory of its own and keep it as the last one.
    MakeProvider,
    /// Initialise a provider from a fresh stream over the base document.
    Initialize(usize),
    /// Ask a provider for its thumbnail interface.
    Cast(usize),
    /// Get a thumbnail of the given size.
    Thumbnail(usize, u32),
    /// Ask the first provider for an interface that it does not have.
    Query,
    /// Release a factory; the later ones move up.
    DropFactory(usize),
    /// Release a provider; the later ones move up.
    DropProvider(usize),
    /// Lock or unlock the server through the first factory.
    Lock(bool),
    /// Ask the library whether it can be unloaded.
    Poll,
    /// Sleep for some milliseconds.
    Sleep(u32),
}

/// What came of an action.
pub enum Answer {
    Done,
    /// It could not be done; the text says why.
    Refused(String),
    /// What the initialisation returned.
    Initialized(Result<(), u32>),
    /// Whether the interface was there.
    Has(bool),
    /// Whether a thumbnail came back.
    Rendered(bool),
    /// What the library said about unloading.
    Status(u32),
}

/// What an `Answer` stands for.
pub enum AnswerView {
    Done,
    Refused(Seq<char>),
    Initialized(Result<(), u32>),
    Has(bool),
    Rendered(bool),
    Status(u32),
}

impl View for Answer {
    type V = AnswerView;

    open spec fn view(&self) -> AnswerView {
        match *self {
            Answer::Done => AnswerView::Done,
            Answer::Refused(why) => AnswerView::Refused(why@),
            Answer::Initialized(r) => AnswerView::Initialized(r),
            Answer::Has(b) => AnswerView::Has(b),
            Answer::Rendered(b) => AnswerView::Rendered(b),
            Answer::Status(hr) => AnswerView::Status(hr),
        }
    }
}

/// The answer is one that the action can have.
pub open spec fn answers(action: Action, answer: AnswerView) -> bool {
    match action {
        Action::Idle | Action::DropFactory(_) | Action::DropProvider(_) | Action::Sleep(_) => answer
            is Done,
        Action::MakeFactory | Action::Instantiate | Action::MakeProvider | Action::Lock(_) => answer
            is Done || answer is Refused,
        Action::Initialize(_) => answer is Refused || answer is Initialized,
        Action::Cast(_) | Action::Query => answer is Has,
        Action::Thumbnail(_, _) => answer is Rendered,
        Action::Poll => answer is Status,
    }
}

pub open spec fn refused(what: Seq<char>, why: Seq<char>) -> Seq<char> {
    what + " failed: "@ + why
}

impl WorldView {
    pub open spec fn nothing() -> WorldView {
        WorldView { factories: 0, providers: Seq::empty(), locks: 0 }
    }

    pub open spec fn wf(self) -> bool {
        &&& self.factories <= MAX_FACTORIES
        &&& self.providers.len() <= MAX_PROVIDERS
        &&& 0 <= self.locks <= i32::MAX
    }

    /// The client holds something that keeps the library loaded.
    pub open spec fn holding(self) -> bool {
        self.factories > 0 || self.providers.len() > 0 || self.locks > 0
    }

    /// What an operation asks for. A random index is drawn only where there is
    /// something to choose from.
    pub open spec fn action(self, op: Op, rng: u64) -> Action {
        match op {
            Op::CreateFactory => if self.factories < MAX_FACTORIES {
                Action::MakeFactory
            } else {
                Action::Idle
            },
            Op::CreateProvider => if self.providers.len() >= MAX_PROVIDERS {
                Action::Idle
            } else if self.factories > 0 {
                Action::Instantiate
            } else {
                Action::MakeProvider
            },
            Op::InitializeProvider => if self.providers.len() > 0 {
                Action::Initialize(draw_below(rng, self.providers.len()) as usize)
            } else {
                Action::Idle
            },
            Op::RenderProvider => if self.providers.len() > 0 {
                Action::Cast(draw_below(rng, self.providers.len()) as usize)
            } else {
                Action::Idle
            },
            Op::QueryUnsupported => if self.providers.len() > 0 {
                Action::Query
            } else {
                Action::Idle
            },
            Op::ReleaseFactory => if self.factories > 0 {
                Action::DropFactory(draw_below(rng, self.factories) as usize)
            } else {
                Action::Idle
            },
            Op::ReleaseProvider => if self.providers.len() > 0 {
                Action::DropProvider(draw_below(rng, self.providers.len()) as usize)
            } else {
                Action::Idle
            },
            Op::LockServer(on) => if self.factories > 0 {
                Action::Lock(on)
            } else {
                Action::Idle
            },
            Op::PollCanUnload => Action::Poll,
            Op::Sleep(ms) => Action::Sleep(ms),
        }
    }

    /// The random state after an operation has been turned into an action.
    pub open spec fn drawn(self, op: Op, rng: u64) -> u64 {
        match op {
            Op::InitializeProvider | Op::RenderProvider | Op::ReleaseProvider => state_below(
                rng,
                self.providers.len(),
            ),
            Op::ReleaseFactory => state_below(rng, self.factories),
            _ => rng,
        }
    }

    /// The action can be carried out on this world.
    pub open spec fn allows(self, action: Action) -> bool {
        match action {
            Action::MakeFactory => self.factories < MAX_FACTORIES,
            Action::Instantiate => self.factories > 0 && self.providers.len() < MAX_PROVIDERS,
            Action::MakeProvider => self.providers.len() < MAX_PROVIDERS,
            Action::Initialize(i) | Action::Cast(i) | Action::Thumbnail(i, _)
            | Action::DropProvider(i) => i < self.providers.len(),
            Action::Query => self.providers.len() > 0,
            Action::DropFactory(i) => i < self.factories,
            Action::Lock(on) => self.factories > 0 && (on ==> self.locks < i32::MAX),
            _ => true,
        }
    }

    /// The world after an action, or the contract that the answer violates.
    pub open spec fn settled(self, action: Action, answer: AnswerView) -> Result<
        WorldView,
        Seq<char>,
    > {
        match (action, answer) {
            (Action::MakeFactory, AnswerView::Refused(why)) => Err(refused("class_factory"@, why)),
            (Action::MakeFactory, _) => Ok(WorldView { factories: self.factories + 1, ..self }),
            (Action::Instantiate, AnswerView::Refused(why)) => Err(refused("CreateInstance"@, why)),
            (Action::MakeProvider, AnswerView::Refused(why)) => Err(
                refused("create_provider"@, why),
            ),
            (Action::Instantiate, _) | (Action::MakeProvider, _) => Ok(
                WorldView { providers: self.providers.push(false), ..self },
            ),
            // Initialising a fresh object must succeed, and doing it again must
            // fail.
            (Action::Initialize(_), AnswerView::Refused(why)) => Err(refused("mem_stream"@, why)),
            (Action::Initialize(i), AnswerView::Initialized(r)) => match (
                self.providers[i as int],
                r,
            ) {
                (false, Ok(_)) => Ok(
                    WorldView { providers: self.providers.update(i as int, true), ..self },
                ),
                (true, Err(_)) => Ok(self),
                (false, Err(hr)) => Err(
                    "Initialize failed on a fresh provider: "@ + hex32(hr),
                ),
                (true, Ok(_)) => Err("Initialize succeeded twice on the same provider"@),
            },
            // An uninitialised provider must never render successfully.
            (Action::Thumbnail(i, _), AnswerView::Rendered(ok)) => if ok
                && !self.providers[i as int] {
                Err("GetThumbnail succeeded on a provider that was never initialised"@)
            } else {
                Ok(self)
            },
            (Action::Query, AnswerView::Has(has)) => if has {
                Err("QI succeeded for an interface the provider does not implement"@)
            } else {
                Ok(self)
            },
            (Action::DropFactory(_), _) => Ok(
                WorldView { factories: (self.factories - 1) as nat, ..self },
            ),
            (Action::DropProvider(i), _) => Ok(
                WorldView { providers: self.providers.remove(i as int), ..self },
            ),
            (Action::Lock(on), AnswerView::Refused(why)) => Err(
                "LockServer("@ + bool_word(on) + ") failed: "@ + why,
            ),
            (Action::Lock(on), _) => Ok(
                WorldView {
                    locks: if on {
                        self.locks + 1
                    } else if self.locks > 0 {
                        self.locks - 1
                    } else {
                        self.locks
                    },
                    ..self
                },
            ),
            // While this client holds live objects or locks, the library must
            // never claim that it is safe to unload.
            (Action::Poll, AnswerView::Status(hr)) => if self.holding() && hr == S_OK {
                Err(
                    "DllCanUnloadNow returned S_OK while "@ + dec(self.factories) + " factories, "@
                        + dec(self.providers.len()) + " providers and "@ + dec_int(self.locks)
                        + " locks were outstanding - COM would unmap the DLL under live objects"@,
                )
            } else {
                Ok(self)
            },
            _ => Ok(self),
        }
    }

    /// What it takes to release everything.
    pub open spec fn release_plan(self) -> WindDown {
        WindDown {
            unlocks: self.locks as i32,
            needs_factory: self.locks > 0 && self.factories == 0,
        }
    }

    /// The world after everything has been released. Locks are released through
    /// a factory; where none could be had they stay.
    pub open spec fn wound_down(self, have_factory: bool) -> WorldView {
        WorldView {
            factories: 0,
            providers: Seq::empty(),
            locks: if have_factory {
                0
            } else {
                self.locks
            },
        }
    }
}

/// How a world is released.
#[derive(Debug, Clone, Copy, PartialEq, Eq, Structural)]
pub struct WindDown {
    /// How often the server has to be unlocked.
    pub unlocks: i32,
    /// No factory is left to unlock the server through, so one has to be made.
    pub needs_factory: bool,
}

fn refusal(what: &str, why: &str) -> (s: String)
    ensures
        s@ == refused(what@, why@),
{
    three(what, " failed: ", why)
}

impl World {
    pub fn new() -> (w: World)
        ensures
            w@ == WorldView::nothing(),
            w@.wf(),
    {
        World { factories: 0, providers: Vec::new(), outstanding_locks: 0 }
    }

    fn choose_action(&self, op: Op, rng: &mut Rng) -> (a: Action)
        requires
            self@.wf(),
            op == Op::LockServer(true) ==> self@.locks < i32::MAX,
        ensures
            a == self@.action(op, old(rng)@),
            final(rng)@ == self@.drawn(op, old(rng)@),
            self@.allows(a),
    {
        match op {
            Op::CreateFactory => {
                // Cap the population so a long sequence cannot exhaust memory.
                if self.factories < MAX_FACTORIES {
                    Action::MakeFactory
                } else {
                    Action::Idle
                }
            },
            Op::CreateProvider => {
                if self.providers.len() >= MAX_PROVIDERS {
                    Action::Idle
                } else if self.factories > 0 {
                    // What a real host does.
                    Action::Instantiate
                } else {
                    Action::MakeProvider
                }
            },
            Op::InitializeProvider => {
                if self.providers.len() > 0 {
                    Action::Initialize(rng.below(self.providers.len()))
                } else {
                    Action::Idle
                }
            },
            Op::RenderProvider => {
                if self.providers.len() > 0 {
                    Action::Cast(rng.below(self.providers.len()))
                } else {
                    Action::Idle
                }
            },
            Op::QueryUnsupported => {
                if self.providers.len() > 0 {
                    Action::Query
                } else {
                    Action::Idle
                }
            },
            Op::ReleaseFactory => {
                if self.factories > 0 {
                    // Not necessarily the newest: out-of-order release is the
                    // interesting case.
                    Action::DropFactory(rng.below(self.factories))
                } else {
                    Action::Idle
                }
            },
            Op::ReleaseProvider => {
                if self.providers.len() > 0 {
                    Action::DropProvider(rng.below(self.providers.len()))
                } else {
                    Action::Idle
                }
            },
            Op::LockServer(on) => {
                if self.factories > 0 {
                    Action::Lock(on)
                } else {
                    Action::Idle
                }
            },
            Op::PollCanUnload => Action::Poll,
            Op::Sleep(ms) => Action::Sleep(ms),
        }
    }

    fn initialized(&mut self, i: usize, result: Result<(), u32>) -> (r: Result<(), String>)
        requires
            i < old(self)@.providers.len(),
        ensures
            match old(self)@.settled(Action::Initialize(i), AnswerView::Initialized(result)) {
                Ok(w) => r is Ok && final(self)@ == w,
                Err(why) => r is Err && r->Err_0@ == why && final(self)@ == old(self)@,
            },
    {
        let known: bool = self.providers[i];
        match result {
            Ok(_) => {
                if known {
                    Err("Initialize succeeded twice on the same provider".to_owned())
                } else {
                    self.providers.set(i, true);
                    Ok(())
                }
            },
            Err(hr) => {
                if known {
                    Ok(())
                } else {
                    Err(
                        two(
                            "Initialize failed on a fresh provider: ",
                            hex32_text(hr).as_str(),
                        ),
                    )
                }
            },
        }
    }

    fn polled(&self, hr: u32) -> (r: Result<(), String>)
        ensures
            match self@.settled(Action::Poll, AnswerView::Status(hr)) {
                Ok(w) => r is Ok && self@ == w,
                Err(why) => r is Err && r->Err_0@ == why,
            },
    {
        let holding: bool = self.factories > 0 || self.providers.len() > 0
            || self.outstanding_locks > 0;
        if holding && hr == S_OK {
            let mut s: String = five(
                "DllCanUnloadNow returned S_OK while ",
                decimal(self.factories as u64).as_str(),
                " factories, ",
                decimal(self.providers.len() as u64).as_str(),
                " providers and ",
            );
            s.append(decimal_int(self.outstanding_locks as i64).as_str());
            s.append(
                " locks were outstanding - COM would unmap the DLL under live objects",
            );
            Err(s)
        } else {
            Ok(())
        }
    }

    /// Takes in what came of an action.
    pub fn settle(&mut self, action: Action, answer: Answer) -> (r: Result<(), String>)
        requires
            old(self)@.wf(),
            old(self)@.allows(action),
            answers(action, answer@),
        ensures
            final(self)@.wf(),
            match old(self)@.settled(action, answer@) {
                Ok(w) => r is Ok && final(self)@ == w,
                Err(why) => r is Err && r->Err_0@ == why && final(self)@ == old(self)@,
            },
    {
        match (action, answer) {
            (Action::MakeFactory, Answer::Refused(why)) => Err(
                refusal("class_factory", why.as_str()),
            ),
            (Action::MakeFactory, _) => {
                self.factories += 1;
                Ok(())
            },
            (Action::Instantiate, Answer::Refused(why)) => Err(
                refusal("CreateInstance", why.as_str()),
            ),
            (Action::MakeProvider, Answer::Refused(why)) => Err(
                refusal("create_provider", why.as_str()),
            ),
            (Action::Instantiate, _) | (Action::MakeProvider, _) => {
                self.providers.push(false);
                Ok(())
            },
            (Action::Initialize(_), Answer::Refused(why)) => Err(
                refusal("mem_stream", why.as_str()),
            ),
            (Action::Initialize(i), Answer::Initialized(result)) => self.initialized(i, result),
            (Action::Thumbnail(i, _), Answer::Rendered(ok)) => {
                if ok && !self.providers[i] {
                    Err(
                        "GetThumbnail succeeded on a provider that was never initialised".to_owned(),
                    )
                } else {
                    Ok(())
                }
            },
            (Action::Query, Answer::Has(has)) => {
                if has {
                    Err(
                        "QI succeeded for an interface the provider does not implement".to_owned(),
                    )
                } else {
                    Ok(())
                }
            },
            (Action::DropFactory(_), _) => {
                self.factories -= 1;
                Ok(())
            },
            (Action::DropProvider(i), _) => {
                self.providers.remove(i);
                Ok(())
            },
            (Action::Lock(on), Answer::Refused(why)) => {
                let mut s: String = three("LockServer(", bool_text(on), ") failed: ");
                s.append(why.as_str());
                Err(s)
            },
            (Action::Lock(on), _) => {
                if on {
                    self.outstanding_locks += 1;
                } else if self.outstanding_locks > 0 {
                    self.outstanding_locks -= 1;
                }
                Ok(())
            },
            (Action::Poll, Answer::Status(hr)) => self.polled(hr),
            _ => Ok(()),
        }
    }

    /// How to release everything, so that the library's reference count returns
    /// to zero between sequences.
    ///
    /// A sequence can legally release every factory while a server lock is still
    /// outstanding. The lock is on the library rather than on the factory, so any
    /// factory can release it. Skipping the unlock would strand a reference and
    /// make every later assertion fail for the wrong reason.
    pub fn wind_down(&self) -> (plan: WindDown)
        requires
            self@.wf(),
        ensures
            plan == self@.release_plan(),
    {
        WindDown {
            unlocks: self.outstanding_locks,
            needs_factory: self.outstanding_locks > 0 && self.factories == 0,
        }
    }

    /// Takes in that everything was released. `have_factory` says whether there
    /// was a factory to release the locks through.
    pub fn released(&mut self, have_factory: bool)
        requires
            old(self)@.wf(),
        ensures
            final(self)@ == old(self)@.wound_down(have_factory),
            final(self)@.wf(),
    {
        if have_factory {
            self.outstanding_locks = 0;
        }
        self.providers = Vec::new();
        self.factories = 0;
        assert(self.providers@ =~= Seq::<bool>::empty());
    }
}

/// Whatever a client does, it never holds more than it may, and a refused or
/// faulty answer changes nothing about what it holds.
pub proof fn worlds_stay_well_formed(w: WorldView, action: Action, answer: AnswerView)
    requires
        w.wf(),
        w.allows(action),
        answers(action, answer),
    ensures
        w.settled(action, answer) matches Ok(next) ==> next.wf(),
{
}

/// Winding down with a factory at hand leaves nothing behind.
pub proof fn winding_down_leaves_nothing(w: WorldView)
    ensures
        w.wound_down(true) == WorldView::nothing(),
        !w.wound_down(true).holding(),
        w.locks == 0 ==> w.wound_down(false) == WorldView::nothing(),
{
}

/// The library may say that it can be unloaded exactly when the client holds
/// nothing.
pub proof fn unload_is_accepted_exactly_when_nothing_is_held(w: WorldView)
    ensures
        w.settled(Action::Poll, AnswerView::Status(S_OK)) is Ok <==> !w.holding(),
{
}

/// A provider takes exactly one initialisation.
pub proof fn a_provider_initialises_once(w: WorldView, i: usize, hr: u32)
    requires
        i < w.providers.len(),
        !w.providers[i as int],
    ensures
        w.settled(Action::Initialize(i), AnswerView::Initialized(Ok(()))) matches Ok(next)
            && next.providers[i as int] && next.settled(
            Action::Initialize(i),
            AnswerView::Initialized(Ok(())),
        ) is Err && next.settled(Action::Initialize(i), AnswerView::Initialized(Err(hr))) == Ok::<
            WorldView,
            Seq<char>,
        >(next),
{
}

// ---------------------------------------------------------------
//                            Session
// ---------------------------------------------------------------

/// Sizes at which a session renders, two of them outside what is accepted.
pub open spec fn render_sizes() -> Seq<u32> {
    seq![1u32, 16, 32, 64, 128, 256, 512, 4096, 4097, 0]
}

/// One random sequence: what has been done, and what is still to come.
pub struct Session {
    rng: Rng,
    world: World,
    transcript: Vec<Op>,
    left: usize,
    pending: Option<Action>,
    failure: Option<String>,
}

/// What a `Session` stands for.
pub struct SessionView {
    pub rng: u64,
    pub world: WorldView,
    pub transcript: Seq<Op>,
    pub left: nat,
    pub pending: Option<Action>,
    pub failure: Option<Seq<char>>,
}

impl View for Session {
    type V = SessionView;

    closed spec fn view(&self) -> SessionView {
        SessionView {
            rng: self.rng@,
            world: self.world@,
            transcript: self.transcript@,
            left: self.left as nat,
            pending: self.pending,
            failure: match self.failure {
                Some(why) => Some(why@),
                None => None,
            },
        }
    }
}

/// Whether an action takes a lock.
pub open spec fn takes_lock(pending: Option<Action>) -> int {
    if pending == Some(Action::Lock(true)) {
        1
    } else {
        0
    }
}

impl SessionView {
    pub open spec fn wf(self) -> bool {
        &&& self.world.wf()
        &&& self.world.locks + self.left + takes_lock(self.pending) <= i32::MAX
        &&& self.pending matches Some(a) ==> self.world.allows(a)
    }

    /// Another operation is due.
    pub open spec fn open(self) -> bool {
        self.pending is None && self.failure is None && self.left > 0
    }

    pub open spec fn next_op(self) -> Op {
        op_for(draw_below(self.rng, 100), self.world.locks)
    }

    /// After the next operation was chosen.
    pub open spec fn advanced(self) -> SessionView {
        let op = self.next_op();
        let rng = state_below(self.rng, 100);
        SessionView {
            rng: self.world.drawn(op, rng),
            transcript: self.transcript.push(op),
            left: (self.left - 1) as nat,
            pending: Some(self.world.action(op, rng)),
            ..self
        }
    }

    /// After the pending action was answered. A provider that has the thumbnail
    /// interface is then asked for a thumbnail of a random size.
    pub open spec fn answered(self, answer: AnswerView) -> SessionView {
        match (self.pending->0, answer) {
            (Action::Cast(i), AnswerView::Has(true)) => SessionView {
                rng: step(self.rng),
                pending: Some(
                    Action::Thumbnail(i, render_sizes()[draw_below(self.rng, 10) as int]),
                ),
                ..self
            },
            _ => match self.world.settled(self.pending->0, answer) {
                Ok(w) => SessionView { world: w, pending: None, ..self },
                Err(why) => SessionView { failure: Some(why), pending: None, ..self },
            },
        }
    }
}

impl Session {
    /// A session of `length` operations from a seed.
    pub fn new(seed: u64, length: usize) -> (s: Session)
        requires
            length <= i32::MAX,
        ensures
            s@ == (SessionView {
                rng: seed_state(seed),
                world: WorldView::nothing(),
                transcript: Seq::empty(),
                left: length as nat,
                pending: None,
                failure: None,
            }),
            s@.wf(),
    {
        Session {
            rng: Rng::new(seed),
            world: World::new(),
            transcript: Vec::new(),
            left: length,
            pending: None,
            failure: None,
        }
    }

    /// What to do next; nothing when the session is over.
    pub fn next(&mut self) -> (r: Option<Action>)
        requires
            old(self)@.wf(),
            old(self)@.pending is None,
        ensures
            final(self)@.wf(),
            old(self)@.open() ==> final(self)@ == old(self)@.advanced() && r
                == final(self)@.pending,
            !old(self)@.open() ==> final(self)@ == old(self)@ && r is None,
    {
        if self.left == 0 || self.failure.is_some() {
            return None;
        }
        let op: Op = random_op(&mut self.rng, self.world.outstanding_locks);
        self.transcript.push(op);
        self.left -= 1;
        let a: Action = self.world.choose_action(op, &mut self.rng);
        self.pending = Some(a);
        Some(a)
    }

    /// Takes in what came of the pending action, and says what else it takes.
    pub fn answer(&mut self, answer: Answer) -> (r: Option<Action>)
        requires
            old(self)@.wf(),
            old(self)@.pending is Some,
            answers(old(self)@.pending->0, answer@),
        ensures
            final(self)@.wf(),
            final(self)@ == old(self)@.answered(answer@),
            r == final(self)@.pending,
    {
        let action: Action = match self.pending {
            Some(a) => a,
            None => Action::Idle,
        };
        if let Action::Cast(i) = action {
            if let Answer::Has(true) = answer {
                let sizes: Vec<u32> = vec![1u32, 16, 32, 64, 128, 256, 512, 4096, 4097, 0];
                assert(sizes@ =~= render_sizes());
                let size: u32 = *self.rng.pick(sizes.as_slice());
                let next: Action = Action::Thumbnail(i, size);
                self.pending = Some(next);
                return Some(next);
            }
        }
        self.pending = None;
        match self.world.settle(action, answer) {
            Ok(_) => {},
            Err(why) => {
                self.failure = Some(why);
            },
        }
        None
    }

    /// How to release what the session still holds.
    pub fn wind_down(&self) -> (plan: WindDown)
        requires
            self@.wf(),
        ensures
            plan == self@.world.release_plan(),
    {
        self.world.wind_down()
    }

    /// Takes in that everything was released.
    pub fn released(&mut self, have_factory: bool)
        requires
            old(self)@.wf(),
            old(self)@.pending is None,
        ensures
            final(self)@.wf(),
            final(self)@ == (SessionView {
                world: old(self)@.world.wound_down(have_factory),
                ..old(self)@
            }),
    {
        self.world.released(have_factory);
    }

    /// The contract that was violated, if any was.
    pub fn failure(&self) -> (r: Option<&String>)
        ensures
            match r {
                Some(why) => self@.failure == Some(why@),
                None => self@.failure is None,
            },
    {
        match &self.failure {
            Some(why) => Some(why),
            None => None,
        }
    }

    /// The operations so far.
    pub fn transcript_text(&self) -> (s: String)
        ensures
            s@ == ops_text(self@.transcript),
    {
        let mut words: Vec<String> = Vec::new();
        let ghost all = self@.transcript.map_values(|op: Op| op.word());
        let mut i: usize = 0;
        assert(texts(words@) =~= all.take(0));
        while i < self.transcript.len()
            invariant
                i <= self.transcript@.len(),
                self@.transcript == self.transcript@,
                all == self@.transcript.map_values(|op: Op| op.word()),
                texts(words@) == all.take(i as int),
            decreases self.transcript@.len() - i,
        {
            push_text(&mut words, self.transcript[i].text());
            i += 1;
            assert(all.take(i as int) =~= all.take(i - 1).push(all[i - 1]));
        }
        assert(all.take(i as int) =~= all);
        three("[", join(&words, ", ").as_str(), "]")
    }
}

/// A list of operations as it is shown.
pub open spec fn ops_text(ops: Seq<Op>) -> Seq<char> {
    "["@ + joined(ops.map_values(|op: Op| op.word()), ", "@) + "]"@
}

/// A session only ever asks for what a correct client could do: the server is
/// unlocked only while a lock is held, and every object that is used is there.
pub proof fn a_client_unlocks_only_what_it_locked(s: SessionView)
    requires
        s.wf(),
        s.open(),
    ensures
        s.advanced().pending == Some(Action::Lock(false)) ==> s.world.locks > 0,
        s.advanced().pending matches Some(a) && s.world.allows(a),
{
}

/// A session that is not over always makes progress: every operation uses up one
/// of the remaining ones, so it ends after at most `left` of them.
pub proof fn sessions_make_progress(s: SessionView)
    requires
        s.wf(),
        s.open(),
    ensures
        s.advanced().left < s.left,
        s.advanced().transcript.len() == s.transcript.len() + 1,
        s.advanced().wf(),
{
    let op = s.next_op();
    let rng = state_below(s.rng, 100);
    let n = s.world.providers.len();
    let m = s.world.factories;
    if n > 0 {
        assert(draw_below(rng, n) < n);
    }
    if m > 0 {
        assert(draw_below(rng, m) < m);
    }
}

// ---------------------------------------------------------------
//                       Seeds of a whole run
// ---------------------------------------------------------------

pub const STA_LENGTH: usize = 60;

pub const MIXED_LENGTH: usize = 40;

pub const FURTHER_LENGTH: usize = 30;

pub const MIXED_THREADS: u64 = 6;

pub const FURTHER_SEQUENCES: u64 = 40;

/// After this many failures the remaining sequences are not run.
pub const STA_FAILURE_CAP: usize = 3;

/// The `i`-th of `sequences` sequences is still run after `failures` have failed.
pub open spec fn still_runs(i: nat, sequences: nat, failures: nat) -> bool {
    i < sequences && failures < STA_FAILURE_CAP
}

/// Whether the `i`-th of `sequences` sequences is run, after `failures` have
/// failed.
pub fn goes_on(i: usize, sequences: usize, failures: usize) -> (r: bool)
    ensures
        r == still_runs(i as nat, sequences as nat, failures as nat),
{
    i < sequences && failures < STA_FAILURE_CAP
}

/// The seed of the `i`-th sequence.
pub open spec fn seed_of_sequence(seed: u64, i: u64) -> u64 {
    wrapping_product(wrapping_sum(seed, i), NONZERO_STATE)
}

/// The seed of the `t`-th concurrent thread.
pub open spec fn seed_of_thread(seed: u64, t: u64) -> u64 {
    wrapping_sum(wrapping_sum(seed, 0x1000), wrapping_product(t, 0x9E37_79B9))
}

/// The seed of the `i`-th further sequence.
pub open spec fn seed_of_further(seed: u64, i: u64) -> u64 {
    wrapping_sum(seed, (0x5000 + i) as u64)
}

/// The `t`-th thread joins a multithreaded apartment.
pub open spec fn multithreaded(t: nat) -> bool {
    t % 2 == 1
}

/// The seed of the `i`-th sequence.
pub fn sequence_seed(seed: u64, i: u64) -> (s: u64)
    ensures
        s == seed_of_sequence(seed, i),
{
    seed.wrapping_add(i).wrapping_mul(NONZERO_STATE)
}

/// The seed of the `t`-th concurrent thread.
pub fn thread_seed(seed: u64, t: u64) -> (s: u64)
    ensures
        s == seed_of_thread(seed, t),
{
    seed.wrapping_add(0x1000).wrapping_add(t.wrapping_mul(0x9E37_79B9))
}

/// Half the threads join a multithreaded apartment.
pub fn joins_mta(t: u64) -> (r: bool)
    ensures
        r == multithreaded(t as nat),
{
    t % 2 == 1
}

/// The seed of the `i`-th further sequence.
pub fn further_seed(seed: u64, i: u64) -> (s: u64)
    requires
        i < FURTHER_SEQUENCES,
    ensures
        s == seed_of_further(seed, i),
{
    seed.wrapping_add(0x5000 + i)
}

/// The line that opens the suite.
pub fn opening_line(seed: u64) -> (s: String)
    ensures
        s@ == "  lifecycle seed = "@ + dec(seed as nat)
            + " (replay with: gauntlet exec lifecycle --seed "@ + dec(seed as nat) + ")"@,
{
    five(
        "  lifecycle seed = ",
        decimal(seed).as_str(),
        " (replay with: gauntlet exec lifecycle --seed ",
        decimal(seed).as_str(),
        ")",
    )
}

pub open spec fn sequence_name(i: nat) -> Seq<char> {
    "sta_sequence_"@ + dec(i)
}

/// Name of the `i`-th sequence.
pub fn sequence_case(i: usize) -> (s: String)
    ensures
        s@ == sequence_name(i as nat),
{
    two("sta_sequence_", decimal(i as u64).as_str())
}

/// What is said about a sequence that failed.
pub fn sequence_failure(i: usize, seed: u64, why: &str, ops: &str) -> (s: String)
    ensures
        s@ == "sequence "@ + dec(i as nat) + " (seed "@ + dec(seed as nat) + "): "@ + why@
            + "\n      ops: "@ + ops@,
{
    let mut s: String = five(
        "sequence ",
        decimal(i as u64).as_str(),
        " (seed ",
        decimal(seed).as_str(),
        "): ",
    );
    s.append(why);
    s.append("\n      ops: ");
    s.append(ops);
    s
}

/// What is said about a concurrent thread that failed.
pub fn thread_failure(mta: bool, why: &str, ops: &str) -> (s: String)
    ensures
        s@ == (if mta {
            "MTA"@
        } else {
            "STA"@
        }) + " thread: "@ + why@ + "\n      ops: "@ + ops@,
{
    let apartment: &str = if mta {
        "MTA"
    } else {
        "STA"
    };
    five(apartment, " thread: ", why, "\n      ops: ", ops)
}

/// What is said about a concurrent thread that ended in a panic.
pub fn thread_panicked() -> (s: String)
    ensures
        s@ == "a lifecycle thread panicked"@,
{
    "a lifecycle thread panicked".to_owned()
}

// ---------------------------------------------------------------
//                            Verdicts
// ---------------------------------------------------------------

pub open spec fn sta_detail(sequences: nat, failures: Seq<Seq<char>>) -> Seq<char> {
    if failures.len() == 0 {
        dec(sequences) + " random STA lifecycle sequences held every COM invariant"@
    } else {
        dec(failures.len()) + " sequence(s) violated a COM invariant:\n      "@ + joined(
            failures,
            "\n      "@,
        )
    }
}

/// The report after the check on the sequences of one apartment.
pub open spec fn after_sta(
    r: ReportView,
    sequences: usize,
    failures: Seq<Seq<char>>,
) -> ReportView {
    r.check(
        "sta_random_sequences"@,
        failures.len() == 0,
        sta_detail(sequences as nat, failures),
    )
}

pub fn judge_sta(report: &mut Report, sequences: usize, failures: &Vec<String>)
    ensures
        final(report)@ == after_sta(old(report)@, sequences, texts(failures@)),
{
    let detail: String = if failures.len() == 0 {
        two(
            decimal(sequences as u64).as_str(),
            " random STA lifecycle sequences held every COM invariant",
        )
    } else {
        three(
            decimal(failures.len() as u64).as_str(),
            " sequence(s) violated a COM invariant:\n      ",
            join(failures, "\n      ").as_str(),
        )
    };
    report.check("sta_random_sequences", failures.len() == 0, detail.as_str());
}

/// The report after the check on the concurrent threads.
pub open spec fn after_mixed(r: ReportView, failures: Seq<Seq<char>>) -> ReportView {
    r.check(
        "mixed_apartment_sequences"@,
        failures.len() == 0,
        if failures.len() == 0 {
            "6 concurrent STA/MTA lifecycle threads held every COM invariant"@
        } else {
            joined(failures, "\n      "@)
        },
    )
}

pub fn judge_mixed(report: &mut Report, failures: &Vec<String>)
    ensures
        final(report)@ == after_mixed(old(report)@, texts(failures@)),
{
    if failures.len() == 0 {
        report.check(
            "mixed_apartment_sequences",
            true,
            "6 concurrent STA/MTA lifecycle threads held every COM invariant",
        );
    } else {
        report.check("mixed_apartment_sequences", false, join(failures, "\n      ").as_str());
    }
}

/// What came of an object that was created on one thread and used on another.
pub enum Handover {
    /// Whether it still rendered.
    Used(bool),
    /// It could not be created; the text says why.
    NotCreated(String),
    /// The creating thread panicked.
    Panicked,
}

/// The report after the check on an object that was handed over.
pub open spec fn after_handover(r: ReportView, h: Handover) -> ReportView {
    match h {
        Handover::Used(ok) => r.check(
            "object_released_on_a_different_thread"@,
            ok,
            "provider created and initialised on thread A, rendered and released on thread B (render_ok="@
                + bool_word(ok) + ")"@,
        ),
        Handover::NotCreated(why) => r.fail(
            "object_released_on_a_different_thread"@,
            "creation failed: "@ + why@,
        ),
        Handover::Panicked => r.fail(
            "object_released_on_a_different_thread"@,
            "creating thread panicked"@,
        ),
    }
}

pub fn judge_handover(report: &mut Report, h: &Handover)
    ensures
        final(report)@ == after_handover(old(report)@, *h),
{
    match h {
        Handover::Used(ok) => {
            report.check(
                "object_released_on_a_different_thread",
                *ok,
                three(
                    "provider created and initialised on thread A, rendered and released on thread B (render_ok=",
                    bool_text(*ok),
                    ")",
                ).as_str(),
            );
        },
        Handover::NotCreated(why) => {
            report.fail(
                "object_released_on_a_different_thread",
                two("creation failed: ", why.as_str()).as_str(),
            );
        },
        Handover::Panicked => {
            report.fail("object_released_on_a_different_thread", "creating thread panicked");
        },
    }
}

/// The report after the check on the reference count.
pub open spec fn after_reference_count(r: ReportView, decisive: u32, shown: u32) -> ReportView {
    r.check(
        "reference_count_returns_to_zero"@,
        decisive == S_OK,
        "DllCanUnloadNow="@ + hex32(shown)
            + " after all lifecycle sequences completed (expected S_OK)"@,
    )
}

/// After every sequence has wound down, nothing may be outstanding. The library
/// is asked twice: `decisive` counts, `shown` is reported.
pub fn judge_reference_count(report: &mut Report, decisive: u32, shown: u32)
    ensures
        final(report)@ == after_reference_count(old(report)@, decisive, shown),
{
    report.check(
        "reference_count_returns_to_zero",
        decisive == S_OK,
        three(
            "DllCanUnloadNow=",
            hex32_text(shown).as_str(),
            " after all lifecycle sequences completed (expected S_OK)",
        ).as_str(),
    );
}

/// The report after the check on the growth of handles.
pub open spec fn after_handle_growth(r: ReportView, d: Delta) -> ReportView {
    r.check(
        "no_handle_growth_across_sequences"@,
        d.gdi_objects <= 16 && d.handles <= 64,
        "after 40 further lifecycle sequences: "@ + d.described(),
    )
}

/// A slow leak of handles across many object lifetimes is invisible in any single
/// sequence.
pub fn judge_handle_growth(report: &mut Report, d: &Delta)
    ensures
        final(report)@ == after_handle_growth(old(report)@, *d),
{
    report.check(
        "no_handle_growth_across_sequences",
        d.gdi_objects <= 16 && d.handles <= 64,
        two("after 40 further lifecycle sequences: ", d.describe().as_str()).as_str(),
    );
}

// ---------------------------------------------------------------
//                             Cases
// ---------------------------------------------------------------

/// The case that all the sequences of one apartment together are.
pub open spec fn group_name() -> Seq<char> {
    "sta_random_sequences"@
}

/// The cases after the sequences of one apartment.
pub open spec fn later_cases() -> Seq<Seq<char>> {
    seq![
        "mixed_apartment_sequences"@,
        "object_released_on_a_different_thread"@,
        "reference_count_returns_to_zero"@,
        "no_handle_growth_across_sequences"@,
    ]
}

/// Every case of the suite, in order.
pub open spec fn case_list(sequences: nat) -> Seq<Seq<char>> {
    seq![group_name()] + Seq::new(sequences, |i: int| sequence_name(i as nat)) + later_cases()
}

/// No two sequences share a name.
pub proof fn a_sequence_has_its_own_name(i: nat, j: nat)
    ensures
        sequence_name(i) == sequence_name(j) <==> i == j,
{
    let prefix = "sta_sequence_"@;
    let n = prefix.len() as int;
    assert(sequence_name(i).skip(n) =~= dec(i));
    assert(sequence_name(j).skip(n) =~= dec(j));
    lemma_dec_digits(i);
    lemma_dec_digits(j);
}

/// The sequence that a case names.
fn named_sequence(name: &str) -> (r: Option<usize>)
    ensures
        match r {
            Some(i) => name@ == sequence_name(i as nat),
            None => forall|i: usize| name@ != #[trigger] sequence_name(i as nat),
        },
{
    let chars: Vec<char> = chars_of(name);
    let prefix: usize = "sta_sequence_".unicode_len();
    let mut tail: String = String::new();
    let mut k: usize = prefix;
    if chars.len() < prefix {
        return None;
    }
    assert(name@.subrange(prefix as int, prefix as int) =~= Seq::empty());
    while k < chars.len()
        invariant
            chars@ == name@,
            prefix <= k <= chars@.len(),
            tail@ == name@.subrange(prefix as int, k as int),
        decreases chars@.len() - k,
    {
        tail.push(chars[k]);
        assert(name@.subrange(prefix as int, k + 1) =~= name@.subrange(prefix as int, k as int).push(
            name@[k as int],
        ));
        k += 1;
    }
    let read: Option<usize> = parse_usize(tail.as_str());
    proof {
        assert forall|i: usize| name@ == #[trigger] sequence_name(i as nat) implies read == Some(
            i,
        ) by {
            assert(tail@ =~= dec(i as nat));
            parse_reads_back_decimal(i as nat, usize::MAX as nat);
        }
    }
    match read {
        Some(i) => if same(sequence_case(i).as_str(), name) {
            Some(i)
        } else {
            None
        },
        None => None,
    }
}

/// The sequences of one apartment that are run: all of them where the whole case is,
/// the one that is named otherwise. A sequence follows from the seed and its number
/// alone, so it can be named whatever the workload.
pub fn sequences_to_run(only: Option<&str>, sequences: usize) -> (v: Vec<usize>)
    ensures
        lets_through(optional_text(only), group_name()) ==> v@ == Seq::new(
            sequences as nat,
            |i: int| i as usize,
        ),
        !lets_through(optional_text(only), group_name()) ==> {
            &&& v@.len() <= 1
            &&& forall|i: usize| #[trigger]
                v@.contains(i) <==> optional_text(only) == Some(sequence_name(i as nat))
        },
{
    let mut v: Vec<usize> = Vec::new();
    if wanted(only, "sta_random_sequences") {
        let mut i: usize = 0;
        while i < sequences
            invariant
                i <= sequences,
                v@ == Seq::new(i as nat, |k: int| k as usize),
            decreases sequences - i,
        {
            v.push(i);
            i += 1;
            assert(v@ =~= Seq::new(i as nat, |k: int| k as usize));
        }
        return v;
    }
    if let Some(name) = only {
        match named_sequence(name) {
            Some(i) => {
                v.push(i);
                proof {
                    assert(v@[0] == i);
                    assert forall|j: usize| #[trigger] v@.contains(j) <==> optional_text(only)
                        == Some(sequence_name(j as nat)) by {
                        a_sequence_has_its_own_name(i as nat, j as nat);
                    }
                }
            },
            None => {},
        }
    }
    v
}

fn later_names() -> (v: Vec<String>)
    ensures
        texts(v@) == later_cases(),
{
    let mut v: Vec<String> = no_texts();
    push_text(&mut v, "mixed_apartment_sequences".to_owned());
    push_text(&mut v, "object_released_on_a_different_thread".to_owned());
    push_text(&mut v, "reference_count_returns_to_zero".to_owned());
    push_text(&mut v, "no_handle_growth_across_sequences".to_owned());
    assert(texts(v@) =~= later_cases());
    v
}

/// A filter lets something of the suite through: a case, or a sequence of whatever
/// number.
pub open spec fn has_work(only: Option<Seq<char>>) -> bool {
    ||| lets_through(only, group_name())
    ||| exists|i: usize| only == Some(#[trigger] sequence_name(i as nat))
    ||| lets_any_through(only, later_cases())
}

/// Whether the suite has anything to run; where it has not, that is recorded.
/// `sequences` is the workload.
pub fn anything_to_run(report: &mut Report, only: Option<&str>, sequences: usize) -> (r: bool)
    requires
        sequences <= usize::MAX - 5,
    ensures
        r == has_work(optional_text(only)),
        final(report)@ == (if r {
            old(report)@
        } else {
            after_no_match(old(report)@, sequences as nat + 5)
        }),
{
    if wanted(only, "sta_random_sequences") || any_wanted(only, &later_names()) {
        return true;
    }
    if let Some(name) = only {
        match named_sequence(name) {
            Some(i) => {
                assert(optional_text(only) == Some(sequence_name(i as nat)));
                return true;
            },
            None => {},
        }
    }
    report.skip(
        "cases",
        three(
            "no case matched the --only filter (",
            decimal((sequences + 5) as u64).as_str(),
            " cases)",
        ).as_str(),
    );
    false
}

/// No two cases of the suite share a name.
pub proof fn every_case_has_its_own_name(sequences: nat)
    ensures
        all_differ(case_list(sequences)),
{
    let l = case_list(sequences);
    let last = sequences as int + 1;
    reveal_strlit("sta_random_sequences");
    reveal_strlit("sta_sequence_");
    reveal_strlit("mixed_apartment_sequences");
    reveal_strlit("object_released_on_a_different_thread");
    reveal_strlit("reference_count_returns_to_zero");
    reveal_strlit("no_handle_growth_across_sequences");
    let later = later_cases();
    assert(later[0][0] == 'm' && later[1][0] == 'o' && later[2][0] == 'r' && later[3][0] == 'n');
    assert(group_name()[0] == 's' && group_name()[4] == 'r');
    assert forall|i: int, j: int| 0 <= i < j < l.len() implies #[trigger] l[i] != #[trigger] l[j] by {
        if 0 < i && j < last {
            assert(l[i] == sequence_name((i - 1) as nat) && l[j] == sequence_name((j - 1) as nat));
            a_sequence_has_its_own_name((i - 1) as nat, (j - 1) as nat);
        } else if j < last {
            assert(l[j] == sequence_name((j - 1) as nat));
            assert(l[j][4] == 's');
        } else if i == 0 {
            assert(l[j] == later[j - last]);
        } else if i < last {
            assert(l[i] == sequence_name((i - 1) as nat));
            assert(l[i][0] == 's');
            assert(l[j] == later[j - last]);
        } else {
            assert(l[i] == later[i - last] && l[j] == later[j - last]);
        }
    }
}

// ---------------------------------------------------------------
//                      What a client may see
// ---------------------------------------------------------------

/// A library that refuses what every client may ask for is at fault: a factory, a
/// provider, a lock and a stream to initialise from must be had. What is reported ends
/// with the reason that was given.
pub proof fn a_refusal_is_a_violation(w: WorldView, action: Action, why: Seq<char>)
    requires
        action is MakeFactory || action is Instantiate || action is MakeProvider || action is Lock
            || action is Initialize,
    ensures
        w.settled(action, AnswerView::Refused(why)) matches Err(t) && t.len() > why.len() && t.skip(
            t.len() - why.len(),
        ) == why,
{
    reveal_strlit(" failed: ");
    reveal_strlit(") failed: ");
    let t = w.settled(action, AnswerView::Refused(why))->Err_0;
    assert(t.skip(t.len() - why.len()) =~= why);
}

/// Exactly these answers violate the contract of the library: a refusal; a fresh
/// provider that cannot be initialised, or one that can be initialised twice; a
/// thumbnail from a provider that was never initialised; an interface that no provider
/// has; and leave to unload while anything is held.
pub proof fn violations_are_exactly_these(w: WorldView, action: Action, answer: AnswerView)
    requires
        w.allows(action),
        answers(action, answer),
    ensures
        w.settled(action, answer) is Err <==> {
            ||| answer is Refused
            ||| action is Initialize && answer is Initialized && (answer->Initialized_0 is Ok
                <==> w.providers[action->Initialize_0 as int])
            ||| action is Thumbnail && answer == AnswerView::Rendered(true)
                && !w.providers[action->Thumbnail_0 as int]
            ||| action is Query && answer == AnswerView::Has(true)
            ||| action is Poll && answer == AnswerView::Status(0) && (w.factories > 0
                || w.providers.len() > 0 || w.locks > 0)
        },
{
}

/// What an action that went well changes, and what it leaves alone. Making a factory or
/// a provider adds exactly one, at the end and not initialised; releasing one takes away
/// exactly that one; a lock counts up and an unlock down, never below zero; only an
/// initialisation marks a provider, and only the one it is about.
pub proof fn what_an_action_changes(w: WorldView, action: Action, answer: AnswerView)
    requires
        w.wf(),
        w.allows(action),
        answers(action, answer),
        w.settled(action, answer) is Ok,
    ensures
        ({
            let next = w.settled(action, answer)->Ok_0;
            &&& next.factories == w.factories + (if action is MakeFactory {
                1int
            } else if action is DropFactory {
                -1
            } else {
                0
            })
            &&& next.providers.len() == w.providers.len() + (if action is Instantiate
                || action is MakeProvider {
                1int
            } else if action is DropProvider {
                -1
            } else {
                0
            })
            &&& action == Action::Lock(true) ==> next.locks == w.locks + 1
            &&& action == Action::Lock(false) && w.locks > 0 ==> next.locks == w.locks - 1
            &&& action == Action::Lock(false) && w.locks == 0 ==> next.locks == 0
            &&& !(action is Lock) ==> next.locks == w.locks
            &&& action is Instantiate || action is MakeProvider ==> !next.providers[next.providers.len()
                - 1] && next.providers.drop_last() == w.providers
            &&& action matches Action::DropProvider(i) ==> {
                &&& next.providers.take(i as int) == w.providers.take(i as int)
                &&& next.providers.skip(i as int) == w.providers.skip(i + 1)
            }
            &&& action matches Action::Initialize(i) ==> next.providers[i as int] && forall|j: int|
                0 <= j < w.providers.len() && j != i ==> #[trigger] next.providers[j]
                    == w.providers[j]
            &&& !(action is Instantiate || action is MakeProvider || action is DropProvider
                || action is Initialize) ==> next.providers == w.providers
        }),
{
    let next = w.settled(action, answer)->Ok_0;
    match action {
        Action::Instantiate | Action::MakeProvider => {
            assert(next.providers.drop_last() =~= w.providers);
        },
        Action::DropProvider(i) => {
            assert(next.providers.take(i as int) =~= w.providers.take(i as int));
            assert(next.providers.skip(i as int) =~= w.providers.skip(i + 1));
        },
        _ => {},
    }
}

/// What an operation asks for: the thing it is named after, as long as there is room for
/// another object or an object to use; nothing otherwise. A provider is made through a
/// factory that is already held, where there is one. What is picked is among what is
/// held.
pub proof fn an_operation_does_what_it_says(w: WorldView, op: Op, rng: u64)
    requires
        w.wf(),
        !(op is LockServer) || w.locks < i32::MAX,
    ensures
        ({
            let a = w.action(op, rng);
            &&& op is CreateFactory ==> (a is MakeFactory <==> w.factories < 8) && (a is MakeFactory
                || a is Idle)
            &&& op is CreateProvider ==> {
                &&& a is Idle <==> w.providers.len() == 16
                &&& a is Instantiate <==> w.providers.len() < 16 && w.factories > 0
                &&& a is MakeProvider <==> w.providers.len() < 16 && w.factories == 0
            }
            &&& op is InitializeProvider ==> if w.providers.len() == 0 {
                a is Idle
            } else {
                a is Initialize && a->Initialize_0 < w.providers.len()
            }
            &&& op is RenderProvider ==> if w.providers.len() == 0 {
                a is Idle
            } else {
                a is Cast && a->Cast_0 < w.providers.len()
            }
            &&& op is QueryUnsupported ==> if w.providers.len() == 0 {
                a is Idle
            } else {
                a is Query
            }
            &&& op is ReleaseFactory ==> if w.factories == 0 {
                a is Idle
            } else {
                a is DropFactory && a->DropFactory_0 < w.factories
            }
            &&& op is ReleaseProvider ==> if w.providers.len() == 0 {
                a is Idle
            } else {
                a is DropProvider && a->DropProvider_0 < w.providers.len()
            }
            &&& op matches Op::LockServer(on) ==> if w.factories == 0 {
                a is Idle
            } else {
                a == Action::Lock(on)
            }
            &&& op is PollCanUnload ==> a is Poll
            &&& op matches Op::Sleep(ms) ==> a == Action::Sleep(ms)
        }),
{
    if w.providers.len() > 0 {
        draws_stay_below(rng, w.providers.len());
    }
    if w.factories > 0 {
        draws_stay_below(rng, w.factories);
    }
}

/// The draws that stand for an operation.
pub open spec fn draws_for(op: Op, locks: int) -> Set<int> {
    Set::new(|d: int| 0 <= d < 100 && op_for(d as nat, locks) == op)
}

/// How often, in a hundred draws, each operation comes up. Unlocking comes up only while
/// a lock is held; its share goes to polling otherwise.
pub proof fn every_operation_has_its_share(locks: int)
    ensures
        draws_for(Op::CreateFactory, locks).len() == 10,
        draws_for(Op::CreateProvider, locks).len() == 20,
        draws_for(Op::InitializeProvider, locks).len() == 18,
        draws_for(Op::RenderProvider, locks).len() == 20,
        draws_for(Op::QueryUnsupported, locks).len() == 4,
        draws_for(Op::ReleaseFactory, locks).len() == 7,
        draws_for(Op::ReleaseProvider, locks).len() == 9,
        draws_for(Op::LockServer(true), locks).len() == 4,
        locks > 0 ==> draws_for(Op::LockServer(false), locks).len() == 3,
        locks <= 0 ==> draws_for(Op::LockServer(false), locks).len() == 0,
        locks > 0 ==> draws_for(Op::PollCanUnload, locks).len() == 4,
        locks <= 0 ==> draws_for(Op::PollCanUnload, locks).len() == 7,
        draws_for(Op::Sleep(1), locks).len() == 1,
{
    lemma_share(Op::CreateFactory, locks, 0, 10);
    lemma_share(Op::CreateProvider, locks, 10, 30);
    lemma_share(Op::InitializeProvider, locks, 30, 48);
    lemma_share(Op::RenderProvider, locks, 48, 68);
    lemma_share(Op::QueryUnsupported, locks, 68, 72);
    lemma_share(Op::ReleaseFactory, locks, 72, 79);
    lemma_share(Op::ReleaseProvider, locks, 79, 88);
    lemma_share(Op::LockServer(true), locks, 88, 92);
    if locks > 0 {
        lemma_share(Op::LockServer(false), locks, 92, 95);
        lemma_share(Op::PollCanUnload, locks, 95, 99);
    } else {
        lemma_share(Op::LockServer(false), locks, 92, 92);
        lemma_share(Op::PollCanUnload, locks, 92, 99);
    }
    lemma_share(Op::Sleep(1), locks, 99, 100);
}

proof fn lemma_share(op: Op, locks: int, lo: int, hi: int)
    requires
        0 <= lo <= hi <= 100,
        forall|d: int|
            0 <= d < 100 ==> (#[trigger] op_for(d as nat, locks) == op <==> lo <= d < hi),
    ensures
        draws_for(op, locks).len() == hi - lo,
{
    vstd::set_lib::lemma_int_range(lo, hi);
    assert(draws_for(op, locks) =~= vstd::set_lib::set_int_range(lo, hi));
}

/// A session fails exactly at the first answer that violates the contract; what was done
/// until then is kept, and nothing further is asked for.
pub proof fn a_session_fails_at_the_first_violation(s: SessionView, answer: AnswerView)
    requires
        s.wf(),
        s.pending is Some,
        s.failure is None,
        answers(s.pending->0, answer),
    ensures
        ({
            let next = s.answered(answer);
            &&& next.failure is Some <==> s.world.settled(s.pending->0, answer) is Err
            &&& next.failure is Some ==> next.world == s.world && next.pending is None
                && !next.open()
            &&& next.failure is None && next.pending is None ==> Ok::<WorldView, Seq<char>>(
                next.world,
            ) == s.world.settled(s.pending->0, answer)
            &&& next.transcript == s.transcript
            &&& next.left == s.left
            &&& next.pending is Some <==> s.pending->0 is Cast && answer == AnswerView::Has(true)
            &&& next.pending matches Some(a) ==> {
                &&& a is Thumbnail
                &&& a->Thumbnail_0 == s.pending->0->Cast_0
                &&& render_sizes().contains(a->Thumbnail_1)
                &&& next.world == s.world
            }
        }),
{
    let next = s.answered(answer);
    if next.pending is Some {
        draws_stay_below(s.rng, 10);
        assert(render_sizes()[draw_below(s.rng, 10) as int] == next.pending->0->Thumbnail_1);
    }
}

/// The next operation is written down, and uses up one of those that are left; what the
/// client holds changes only once its action is answered.
pub proof fn an_operation_is_written_down_before_it_is_done(s: SessionView)
    requires
        s.wf(),
        s.open(),
    ensures
        s.advanced().transcript == s.transcript + seq![s.advanced().transcript.last()],
        s.advanced().pending == Some(
            s.world.action(s.advanced().transcript.last(), state_below(s.rng, 100)),
        ),
        s.advanced().world == s.world,
        s.advanced().left + 1 == s.left,
        s.advanced().failure is None,
{
}

/// Thumbnails are asked for at no size, at sizes that the provider accepts up to its
/// largest, and just beyond that.
pub proof fn sizes_reach_past_both_ends()
    ensures
        render_sizes().len() == 10,
        forall|k: int| 0 <= k < 10 ==> #[trigger] render_sizes()[k] <= 4097,
        render_sizes().contains(0),
        render_sizes().contains(1),
        render_sizes().contains(16),
        render_sizes().contains(32),
        render_sizes().contains(64),
        render_sizes().contains(128),
        render_sizes().contains(256),
        render_sizes().contains(512),
        render_sizes().contains(4096),
        render_sizes().contains(4097),
        forall|i: int, j: int|
            0 <= i < j < 10 ==> #[trigger] render_sizes()[i] != #[trigger] render_sizes()[j],
{
    let s = render_sizes();
    assert(s[0] == 1 && s[1] == 16 && s[2] == 32 && s[3] == 64 && s[4] == 128 && s[5] == 256 && s[6]
        == 512 && s[7] == 4096 && s[8] == 4097 && s[9] == 0);
}

/// What is left to unlock after `n` unlocks that went well.
pub open spec fn after_unlocks(w: WorldView, n: nat) -> WorldView
    decreases n,
{
    if n == 0 {
        w
    } else {
        after_unlocks(w, (n - 1) as nat).settled(Action::Lock(false), AnswerView::Done)->Ok_0
    }
}

proof fn lemma_unlocks(w: WorldView, n: nat)
    requires
        w.wf(),
        n <= w.locks,
    ensures
        after_unlocks(w, n).locks == w.locks - n,
    decreases n,
{
    if n > 0 {
        lemma_unlocks(w, (n - 1) as nat);
    }
}

/// Unlocking as often as planned releases every lock and no unlock is wasted; a factory
/// of its own is made for it exactly when there is something to unlock and no factory
/// left to do it through.
pub proof fn the_plan_releases_every_lock(w: WorldView)
    requires
        w.wf(),
    ensures
        w.release_plan().unlocks >= 0,
        after_unlocks(w, w.release_plan().unlocks as nat).locks == 0,
        forall|n: nat|
            n < w.release_plan().unlocks ==> (#[trigger] after_unlocks(w, n)).locks > 0,
        w.release_plan().needs_factory <==> w.release_plan().unlocks > 0 && w.factories == 0,
{
    lemma_unlocks(w, w.locks as nat);
    assert forall|n: nat| n < w.release_plan().unlocks implies (#[trigger] after_unlocks(
        w,
        n,
    )).locks > 0 by {
        lemma_unlocks(w, n);
    }
}

/// Sequences go on in order until all have run or the third has failed.
pub proof fn three_failures_end_the_sequences(i: nat, sequences: nat, failures: nat)
    ensures
        failures >= 3 ==> !still_runs(i, sequences, failures),
        failures <= 2 ==> (still_runs(i, sequences, failures) <==> i < sequences),
{
}

/// Every sequence has a seed of its own, and so has every thread and every further
/// sequence: no random sequence is run twice under different numbers.
pub proof fn seeds_differ(seed: u64, i: u64, j: u64)
    ensures
        seed_of_sequence(seed, i) == seed_of_sequence(seed, j) ==> i == j,
        i < MIXED_THREADS && j < MIXED_THREADS && seed_of_thread(seed, i) == seed_of_thread(seed, j)
            ==> i == j,
        i < FURTHER_SEQUENCES && j < FURTHER_SEQUENCES && seed_of_further(seed, i)
            == seed_of_further(seed, j) ==> i == j,
{
    spreading_keeps_values_apart(wrapping_sum(seed, i), wrapping_sum(seed, j));
    shifting_keeps_values_apart(seed, i, j);
    shifting_keeps_values_apart(
        wrapping_sum(seed, 0x1000),
        wrapping_product(i, 0x9E37_79B9),
        wrapping_product(j, 0x9E37_79B9),
    );
    shifting_keeps_values_apart(seed, (0x5000 + i) as u64, (0x5000 + j) as u64);
}

/// Neighbouring threads join different apartments, so half of them join a
/// multithreaded one; the first does not.
pub proof fn apartments_alternate(t: nat)
    ensures
        multithreaded(t + 1) <==> !multithreaded(t),
        !multithreaded(0),
{
}

/// What the checks of the suite depend on: the sequences pass exactly when none failed,
/// the handed-over object exactly when it could be made and still rendered, the count
/// exactly when the library may be unloaded at the end, and the handles exactly when
/// they hardly grew.
pub proof fn what_the_lifecycle_checks_ask(
    r: ReportView,
    sequences: usize,
    failures: Seq<Seq<char>>,
    h: Handover,
    decisive: u32,
    shown: u32,
    d: Delta,
)
    ensures
        one_check(
            r,
            after_sta(r, sequences, failures),
            "sta_random_sequences"@,
            outcome_of(failures =~= Seq::empty()),
        ),
        one_check(
            r,
            after_mixed(r, failures),
            "mixed_apartment_sequences"@,
            outcome_of(failures =~= Seq::empty()),
        ),
        one_check(
            r,
            after_handover(r, h),
            "object_released_on_a_different_thread"@,
            outcome_of(h == Handover::Used(true)),
        ),
        one_check(
            r,
            after_reference_count(r, decisive, shown),
            "reference_count_returns_to_zero"@,
            outcome_of(decisive == 0),
        ),
        one_check(
            r,
            after_handle_growth(r, d),
            "no_handle_growth_across_sequences"@,
            outcome_of(d.gdi_objects <= 16 && d.handles <= 64),
        ),
{
}

/// What is said about failed sequences names every one of them.
pub proof fn every_failed_sequence_is_named(sequences: nat, failures: Seq<Seq<char>>, k: int)
    ensures
        0 <= k < failures.len() ==> occurs(failures[k], sta_detail(sequences, failures)),
        failures.len() == 0 ==> begins_with(
            sta_detail(sequences, failures),
            dec(sequences) + " random STA lifecycle sequences"@,
        ),
{
    if 0 <= k < failures.len() {
        joining_keeps_every_item(failures, "\n      "@, k);
        let head = dec(failures.len()) + " sequence(s) violated a COM invariant:\n      "@;
        let list = joined(failures, "\n      "@);
        let none = Seq::<char>::empty();
        lemma_occurs_in_more(failures[k], head, list, none);
        assert(head + list + none =~= sta_detail(sequences, failures));
    }
    if failures.len() == 0 {
        reveal_strlit(" random STA lifecycle sequences");
        reveal_strlit(" random STA lifecycle sequences held every COM invariant");
        let part = dec(sequences) + " random STA lifecycle sequences"@;
        assert(sta_detail(sequences, failures).take(part.len() as int) =~= part);
    }
}

/// Without a filter the suite has something to run, and with the name of any of its cases
/// as well.
pub proof fn every_case_gives_work(sequences: nat, i: int)
    requires
        sequences <= usize::MAX,
        0 <= i < case_list(sequences).len(),
    ensures
        has_work(None),
        has_work(Some(case_list(sequences)[i])),
{
    assert(lets_through(None, group_name()));
    let name = case_list(sequences)[i];
    if i == 0 {
        assert(name == group_name());
    } else if i <= sequences {
        let k: usize = (i - 1) as usize;
        assert(name == sequence_name(k as nat));
    } else {
        let k: int = i - 1 - sequences;
        assert(name == later_cases()[k]);
        assert(lets_through(Some(name), later_cases()[k]));
    }
}

} // verus!
