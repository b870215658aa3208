//! Simulation driver: the capability contracts for game models and
//! renderers, and the cooperative scheduler that composes a model, an
//! environment and a renderer into one restartable control flow.
//!
//! The scheduler is an explicit state machine.  The host resumes it one
//! increment at a time, handing in whatever command value is current at
//! that moment (last write wins, no queueing); each increment performs at
//! most one model step or one unit of render work.

use vstd::prelude::*;

verus! {

use core::marker::PhantomData;

/// The model's termination signal: the expected, recoverable end of one
/// game cycle.
pub struct GameOver;

/// Capability contract for concrete game logic: an initial burst of
/// updates, then a step function from the latest command (or none) to the
/// next update or the termination signal.
pub trait Model: Sized {
    type Cmd;

    type Update;

    /// Produce the finite sequence of initial updates and move the model
    /// from uninitialized to running.
    fn initialize(&mut self) -> Vec<Self::Update>;

    /// Compute the next update from the most recent external command, or
    /// signal that the game is over.
    fn step(&mut self, cmd: Option<Self::Cmd>) -> Result<Self::Update, GameOver>;

    /// Release whatever the model holds; called once, after termination.
    fn tear_down(&mut self);
}

/// Capability contract consumed by the driver: a renderer paints exactly
/// one update, possibly spread over several increments of work.
pub trait Render: Sized {
    type Env;

    type Update;

    /// Build the renderer responsible for painting `u`.
    fn create(u: Self::Update, env: &mut Self::Env) -> Self;

    /// Perform one increment of drawing work; `Some(())` means more work
    /// remains, `None` means this renderer is done and exhausted.
    fn render(&mut self, env: &mut Self::Env) -> Option<()>;
}

/// What one resumption of a suspended computation reports.
#[derive(Debug, Copy, Clone, Eq, PartialEq, Structural)]
pub enum Suspension {
    Yielded,
    Complete,
}

/// Adapter that drives one renderer to completion across suspension
/// points.
pub struct RenderGen<R> {
    renderer: R,
}

impl<R: Render> RenderGen<R> {
    pub closed spec fn spec_renderer(&self) -> R {
        self.renderer
    }

    pub fn new(renderer: R) -> (r: RenderGen<R>)
        ensures
            r.spec_renderer() == renderer,
    {
        RenderGen { renderer }
    }

    /// One increment of the wrapped renderer's work: `Yielded` while more
    /// work remains, `Complete` when the renderer reports done.
    pub fn resume(&mut self, env: &mut R::Env) -> (s: Suspension) {
        match self.renderer.render(env) {
            Some(_) => Suspension::Yielded,
            None => Suspension::Complete,
        }
    }
}

/// A model that is immediately over: no initial updates, and every step
/// signals termination.
pub struct Empty<C, U> {
    _cmd: PhantomData<C>,
    _update: PhantomData<U>,
}

impl<C, U> Empty<C, U> {
    pub fn new() -> (r: Empty<C, U>) {
        Empty { _cmd: PhantomData, _update: PhantomData }
    }
}

impl<C, U> Model for Empty<C, U> {
    type Cmd = C;

    type Update = U;

    fn initialize(&mut self) -> (r: Vec<U>)
        ensures
            r@.len() == 0,
    {
        Vec::new()
    }

    fn step(&mut self, _cmd: Option<C>) -> (r: Result<U, GameOver>)
        ensures
            r is Err,
    {
        Err(GameOver)
    }

    fn tear_down(&mut self) {
    }
}

/// A model that ignores commands and replays a recorded update on every
/// step, ending when the recording is empty.
pub struct Replay<C, U> {
    _cmd: PhantomData<C>,
    updates: Vec<U>,
    index: usize,
}

impl<C, U: Clone> Replay<C, U> {
    pub closed spec fn spec_updates(&self) -> Seq<U> {
        self.updates@
    }

    pub closed spec fn spec_index(&self) -> int {
        self.index as int
    }

    pub fn new(updates: Vec<U>) -> (r: Replay<C, U>)
        ensures
            r.spec_updates() == updates@,
            r.spec_index() == 0,
    {
        Replay { _cmd: PhantomData, updates, index: 0 }
    }
}

impl<C, U: Clone> Model for Replay<C, U> {
    type Cmd = C;

    type Update = U;

    fn initialize(&mut self) -> (r: Vec<U>)
        ensures
            r@.len() == 0,
            final(self).spec_index() == 0,
            final(self).spec_updates() == old(self).spec_updates(),
    {
        self.index = 0;
        Vec::new()
    }

    fn step(&mut self, _cmd: Option<C>) -> (r: Result<U, GameOver>)
        ensures
            *final(self) == *old(self),
            r is Ok <==> old(self).spec_index() < old(self).spec_updates().len(),
    {
        if self.index < self.updates.len() {
            Ok(self.updates[self.index].clone())
        } else {
            Err(GameOver)
        }
    }

    fn tear_down(&mut self) {
    }
}

/// The cursor of the driver: which suspension point the control flow is
/// paused at between host-driven increments.
pub enum Phase<U, R> {
    /// Start of a cycle; the model has not been initialized yet.
    Begin,
    /// Initial updates are queued; no renderer is active.
    InitQueue { pending: Vec<U> },
    /// An initial update is being rendered; the rest are still queued.
    InitRender { pending: Vec<U>, renderer: R },
    /// Steady state: the next increment reads the command and steps the
    /// model.
    AwaitStep,
    /// A steady-state update is being rendered.
    StepRender { renderer: R },
}

/// A model together with the environment it draws into.
pub struct Game<M, E> {
    model: M,
    env: E,
}

impl<M: Model, E> Game<M, E> {
    pub closed spec fn spec_model(&self) -> M {
        self.model
    }

    pub closed spec fn spec_env(&self) -> E {
        self.env
    }

    pub fn new(model: M, env: E) -> (g: Game<M, E>)
        ensures
            g.spec_model() == model,
            g.spec_env() == env,
    {
        Game { model, env }
    }

    /// Turn the game into a restartable driver, parameterized by the
    /// renderer capability the call site chooses.
    pub fn create<R: Render<Env = E, Update = M::Update>>(self) -> (d: GameLoop<M, E, R>)
        ensures
            d.spec_phase() is Begin,
            d.spec_model() == self.spec_model(),
            d.spec_env() == self.spec_env(),
    {
        GameLoop { model: self.model, env: self.env, phase: Phase::Begin }
    }
}

/// The driver: a single logical control flow with explicit suspension
/// points, resumed one increment at a time by the host.  It loops forever
/// across game-over boundaries: after termination the model is torn down
/// and the whole cycle restarts.
pub struct GameLoop<M: Model, E, R> {
    model: M,
    env: E,
    phase: Phase<M::Update, R>,
}

/// How one driver increment may move the cursor, whatever the model and
/// renderer return.
pub open spec fn spec_resume_step<M: Model, E, R: Render<Env = E, Update = M::Update>>(
    pre: GameLoop<M, E, R>,
    post: GameLoop<M, E, R>,
) -> bool {
    match pre.spec_phase() {
        // initialize ran: its updates are queued, nothing rendered yet
        Phase::Begin => post.spec_phase() matches Phase::InitQueue { pending: _ }
            && post.spec_env() == pre.spec_env(),
        // either the front update went to a fresh renderer, or the queue
        // was exhausted and the steady loop starts
        Phase::InitQueue { pending } => post.spec_model() == pre.spec_model() && if pending.len()
            > 0 {
            post.spec_phase() matches Phase::InitRender { pending: rest, renderer: _ } && rest@
                == pending@.remove(0)
        } else {
            post.spec_phase() is AwaitStep && post.spec_env() == pre.spec_env()
        },
        // one unit of render work: still busy, or back to the queue
        Phase::InitRender { pending, renderer } => post.spec_model() == pre.spec_model() && (
        (post.spec_phase() matches Phase::InitRender { pending: rest, renderer: _ } && rest@
            == pending@) || (post.spec_phase() matches Phase::InitQueue { pending: rest } && rest@
            == pending@)),
        // the model stepped: an update goes to a fresh renderer, or the
        // game is over, the model is torn down and the cycle restarts
        Phase::AwaitStep => (post.spec_phase() matches Phase::StepRender { renderer: _ }) || (
        post.spec_phase() is Begin && post.spec_env() == pre.spec_env()),
        // one unit of render work: still busy, or await the next step
        Phase::StepRender { renderer } => post.spec_model() == pre.spec_model() && (
        post.spec_phase() matches Phase::StepRender { renderer: _ } || (post.spec_phase()
            is AwaitStep)),
    }
}

impl<M: Model, E, R: Render<Env = E, Update = M::Update>> GameLoop<M, E, R> {
    pub closed spec fn spec_model(&self) -> M {
        self.model
    }

    pub closed spec fn spec_env(&self) -> E {
        self.env
    }

    pub closed spec fn spec_phase(&self) -> Phase<M::Update, R> {
        self.phase
    }

    /// Run the driver for one increment: at most one model step or one
    /// unit of render work, reading `cmd` as the command value current at
    /// this moment.
    pub fn resume(&mut self, cmd: Option<M::Cmd>)
        ensures
            spec_resume_step(*old(self), *final(self)),
    {
        let mut ph: Phase<M::Update, R> = Phase::AwaitStep;
        core::mem::swap(&mut self.phase, &mut ph);
        match ph {
            Phase::Begin => {
                let pending = self.model.initialize();
                self.phase = Phase::InitQueue { pending };
            },
            Phase::InitQueue { mut pending } => {
                if pending.len() > 0 {
                    let u = pending.remove(0);
                    let renderer = R::create(u, &mut self.env);
                    self.phase = Phase::InitRender { pending, renderer };
                } else {
                    self.phase = Phase::AwaitStep;
                }
            },
            Phase::InitRender { pending, mut renderer } => {
                match renderer.render(&mut self.env) {
                    Some(_) => {
                        self.phase = Phase::InitRender { pending, renderer };
                    },
                    None => {
                        self.phase = Phase::InitQueue { pending };
                    },
                }
            },
            Phase::AwaitStep => {
                match self.model.step(cmd) {
                    Ok(u) => {
                        let renderer = R::create(u, &mut self.env);
                        self.phase = Phase::StepRender { renderer };
                    },
                    Err(_) => {
                        self.model.tear_down();
                        self.phase = Phase::Begin;
                    },
                }
            },
            Phase::StepRender { mut renderer } => {
                match renderer.render(&mut self.env) {
                    Some(_) => {
                        self.phase = Phase::StepRender { renderer };
                    },
                    None => {
                        self.phase = Phase::AwaitStep;
                    },
                }
            },
        }
    }
}

} // verus!
