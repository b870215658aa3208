use std::cell::Cell;
use std::rc::Rc;

use snake_core::system::{Empty, Game, GameOver, Model, Render, RenderGen, Replay, Suspension};

struct Counters {
    steps: Cell<u32>,
    tear_downs: Cell<u32>,
}

struct TerminatingModel {
    counters: Rc<Counters>,
}

impl Model for TerminatingModel {
    type Cmd = ();
    type Update = u32;

    fn initialize(&mut self) -> Vec<u32> {
        Vec::new()
    }

    fn step(&mut self, _cmd: Option<()>) -> Result<u32, GameOver> {
        self.counters.steps.set(self.counters.steps.get() + 1);
        Err(GameOver)
    }

    fn tear_down(&mut self) {
        self.counters
            .tear_downs
            .set(self.counters.tear_downs.get() + 1);
    }
}

struct TestEnv {
    creates: Rc<Cell<u32>>,
}

struct OneShot;

impl Render for OneShot {
    type Env = TestEnv;
    type Update = u32;

    fn create(_u: u32, env: &mut TestEnv) -> OneShot {
        env.creates.set(env.creates.get() + 1);
        OneShot
    }

    fn render(&mut self, _env: &mut TestEnv) -> Option<()> {
        None
    }
}

struct TwoShot {
    remaining: u32,
}

impl Render for TwoShot {
    type Env = TestEnv;
    type Update = u32;

    fn create(_u: u32, env: &mut TestEnv) -> TwoShot {
        env.creates.set(env.creates.get() + 1);
        TwoShot { remaining: 2 }
    }

    fn render(&mut self, _env: &mut TestEnv) -> Option<()> {
        if self.remaining > 1 {
            self.remaining -= 1;
            Some(())
        } else {
            None
        }
    }
}

#[test]
fn terminating_model_renders_nothing_and_tears_down_once_per_cycle() {
    let counters = Rc::new(Counters {
        steps: Cell::new(0),
        tear_downs: Cell::new(0),
    });
    let creates = Rc::new(Cell::new(0));
    let model = TerminatingModel {
        counters: counters.clone(),
    };
    let env = TestEnv {
        creates: creates.clone(),
    };
    let mut driver = Game::new(model, env).create::<OneShot>();

    // one full cycle: initialize, drain the empty queue, step, tear down
    driver.resume(None);
    driver.resume(None);
    driver.resume(None);
    assert_eq!(counters.steps.get(), 1);
    assert_eq!(counters.tear_downs.get(), 1);
    assert_eq!(creates.get(), 0);

    // the driver restarts the whole cycle rather than exiting
    driver.resume(None);
    driver.resume(None);
    driver.resume(None);
    assert_eq!(counters.steps.get(), 2);
    assert_eq!(counters.tear_downs.get(), 2);
    assert_eq!(creates.get(), 0);
}

struct ScriptedModel {
    updates: Vec<u32>,
    at: usize,
    tear_downs: Rc<Cell<u32>>,
}

impl Model for ScriptedModel {
    type Cmd = ();
    type Update = u32;

    fn initialize(&mut self) -> Vec<u32> {
        vec![100, 200]
    }

    fn step(&mut self, _cmd: Option<()>) -> Result<u32, GameOver> {
        if self.at < self.updates.len() {
            let u = self.updates[self.at];
            self.at += 1;
            Ok(u)
        } else {
            Err(GameOver)
        }
    }

    fn tear_down(&mut self) {
        self.at = 0;
        self.tear_downs.set(self.tear_downs.get() + 1);
    }
}

#[test]
fn driver_renders_initial_updates_then_steps() {
    let tear_downs = Rc::new(Cell::new(0));
    let creates = Rc::new(Cell::new(0));
    let model = ScriptedModel {
        updates: vec![7],
        at: 0,
        tear_downs: tear_downs.clone(),
    };
    let env = TestEnv {
        creates: creates.clone(),
    };
    let mut driver = Game::new(model, env).create::<TwoShot>();

    driver.resume(None); // initialize: two initial updates queued
    assert_eq!(creates.get(), 0);
    driver.resume(None); // first initial update gets its renderer
    assert_eq!(creates.get(), 1);
    driver.resume(None); // render: more work remains
    driver.resume(None); // render: done
    driver.resume(None); // second initial update gets its renderer
    assert_eq!(creates.get(), 2);
    driver.resume(None); // render: more work remains
    driver.resume(None); // render: done
    driver.resume(None); // queue empty: enter the steady loop
    assert_eq!(creates.get(), 2);
    driver.resume(None); // step: one scripted update
    assert_eq!(creates.get(), 3);
    driver.resume(None); // render: more work remains
    driver.resume(None); // render: done
    assert_eq!(tear_downs.get(), 0);
    driver.resume(None); // step: game over, tear down, restart
    assert_eq!(tear_downs.get(), 1);
}

#[test]
fn render_gen_reports_suspension_then_completion() {
    let creates = Rc::new(Cell::new(0));
    let mut env = TestEnv {
        creates: creates.clone(),
    };
    let renderer = TwoShot::create(5, &mut env);
    let mut gen = RenderGen::new(renderer);
    assert_eq!(gen.resume(&mut env), Suspension::Yielded);
    assert_eq!(gen.resume(&mut env), Suspension::Complete);

    let one = OneShot::create(5, &mut env);
    let mut gen = RenderGen::new(one);
    assert_eq!(gen.resume(&mut env), Suspension::Complete);
}

#[test]
fn empty_model_ends_immediately() {
    let mut model: Empty<(), u32> = Empty::new();
    assert!(model.initialize().is_empty());
    assert!(matches!(model.step(None), Err(GameOver)));
    assert!(matches!(model.step(Some(())), Err(GameOver)));
    model.tear_down();
}

#[test]
fn replay_model_replays_recorded_updates() {
    let mut model: Replay<(), u32> = Replay::new(vec![42]);
    assert!(model.initialize().is_empty());
    assert_eq!(model.step(None).ok(), Some(42));
    // the recorded update is replayed on every step, never consumed
    assert_eq!(model.step(None).ok(), Some(42));
    model.tear_down();

    let mut ended: Replay<(), u32> = Replay::new(Vec::new());
    assert!(ended.initialize().is_empty());
    assert!(ended.step(None).is_err());
}
