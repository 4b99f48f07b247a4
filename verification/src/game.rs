use vstd::prelude::*;
use crate::game::game_tasks::{GameTasks, Key};
use crate::game::input::{Event, Input};
use crate::game::renderer::{Renderer, Scene};
use crate::game::secret::{decimal, replayed, secret_bits, to_bits, to_decimal, BIT_COUNT};
use crate::game::shapes::{Point, ShapeError};
use crate::game::snowman_states::SnowmanStates;

pub mod fixed;
pub mod game_tasks;
pub mod hat;
pub mod input;
pub mod morph;
pub mod renderer;
pub mod secret;
pub mod shapes;
pub mod snowman_states;

verus! {

/// What the player is to be told after a step of the game.
#[derive(Copy, Clone, PartialEq, Eq, Structural, Debug)]
pub enum Feedback {
    /// Nothing to tell.
    Nothing,
    /// The key was the next digit of the answer.
    GuessedRight,
    /// The key was the last digit of the answer: the snowman starts to turn
    /// into a fir tree.
    Solved,
    /// The key was not the next digit of the answer.
    GuessedWrong,
    /// The fir tree has turned back into the snowman: the game is won and
    /// over.
    Finished,
}

/// Why a session has stopped.
#[derive(Copy, Clone, PartialEq, Eq, Structural, Debug)]
pub enum Termination {
    /// The player asked to leave the game.
    Quit,
    /// The player solved the puzzle and sent the fir tree back.
    Won,
    /// The window was closed, or the player asked for a new number.
    Stopped,
}

/// One session of the game: a secret number, what the player has found of
/// it, and what the snowman is doing.
pub struct Game {
    origin: Vec<char>,
    game_solution_binary: Vec<u8>,
    player_input: Vec<u8>,
    snowman_state: SnowmanStates,
    snowman_animation_duration: i32,
    input: Input,
    renderer: Renderer,
    is_stopped: bool,
    is_user_terminated: bool,
    is_won: bool,
    idle_melt_odds: u8,
}

/// What one frame of a session gives to the program around it.
#[derive(Debug)]
pub struct Frame {
    /// What the player is to be told, in order: first by the state machine,
    /// then for each event.
    pub told: Vec<Feedback>,
    /// What is to be drawn, or why nothing can be drawn.
    pub scene: Result<Scene, ShapeError>,
    /// What the idle snowman drew for its chance to melt; zero where that is
    /// switched off.
    pub roll: u8,
}

/// The tasks that a run of events stands for.
pub open spec fn tasks_of(events: Seq<Event>) -> Seq<GameTasks> {
    Seq::new(events.len(), |i: int| events[i].task())
}

/// A number drawn by `rand::random`, which takes it from the random
/// generator of the thread. Nothing is claimed of the number: two calls may
/// differ. `rand` panics where the system has no randomness to seed the
/// generator with.
#[verifier::external_body]
fn random_roll() -> (roll: u8) {
    rand::random::<u8>()
}

/// A session as the contracts speak of it.
pub struct GameView {
    /// The decimal digits of the secret, as they are shown.
    pub origin: Seq<char>,
    /// The binary digits of the secret, most significant first.
    pub solution: Seq<u8>,
    /// The digits that the player has confirmed so far.
    pub confirmed: Seq<u8>,
    /// What the snowman is doing.
    pub state: SnowmanStates,
    /// The number of frames that every animation runs.
    pub duration: i32,
    /// The renderer, with the anchors of the hat.
    pub renderer: Renderer,
    /// Whether the session is over.
    pub stopped: bool,
    /// Whether the player asked to leave the game.
    pub user_quit: bool,
    /// Whether the player has won.
    pub won: bool,
    /// In how many of 256 frames an idle snowman starts to melt by itself;
    /// zero switches that off.
    pub melt_odds: u8,
}

impl GameView {
    /// What holds of every session: the solution is the eight binary digits
    /// of the number that the origin shows, the confirmed digits are the
    /// first digits of the solution, and the renderer animates as long as
    /// the state machine does.
    pub open spec fn wf(self) -> bool {
        &&& 0 <= self.number() <= u8::MAX
        &&& self.solution == secret_bits(self.number())
        &&& self.origin == decimal(self.number() as nat)
        &&& self.confirmed.len() <= self.solution.len()
        &&& self.confirmed == self.solution.take(self.confirmed.len() as int)
        &&& self.renderer.animation_duration == self.duration
    }

    /// The secret number.
    pub open spec fn number(self) -> int {
        replayed(self.solution)
    }

    /// Whether every digit of the solution is confirmed.
    pub open spec fn is_complete(self) -> bool {
        self.confirmed.len() == self.solution.len()
    }

    /// A session that has just begun.
    pub open spec fn initial(number: u8, duration: i32) -> GameView {
        GameView {
            origin: decimal(number as nat),
            solution: secret_bits(number as int),
            confirmed: Seq::empty(),
            state: SnowmanStates::Idle,
            duration,
            renderer: Renderer {
                snowman_pos: Point { x: 0, y: 600000 },
                snowman_scale: Point { x: 25000, y: 25000 },
                snowman_idle_amplifier: 1500,
                animation_duration: duration,
                hat_left: Point { x: 3500, y: 20000 },
                hat_right: Point { x: 6500, y: 20000 },
            },
            stopped: false,
            user_quit: false,
            won: false,
            melt_odds: 0,
        }
    }

    /// The session after the step of the state machine that begins a frame.
    /// When the morph back from the fir tree has run its course, the session
    /// is won and over.
    pub open spec fn advanced(self, current_frame: i32) -> GameView {
        let over = self.state.ends_session(current_frame, self.duration);
        GameView {
            state: self.state.advanced(current_frame, self.duration),
            stopped: self.stopped || over,
            won: self.won || over,
            ..self
        }
    }

    /// Whether `key` is taken as the next digit: there is a digit left to
    /// find, the key stands for it, and the snowman is no fir tree.
    pub open spec fn accepts(self, key: Key) -> bool {
        &&& !self.is_complete()
        &&& self.state != SnowmanStates::IsFirTree()
        &&& key.digit_value() == Some(self.solution[self.confirmed.len() as int])
    }

    /// The session after `key` was tried as a digit. A key that is accepted
    /// is confirmed, and the last digit starts the morph into the fir tree.
    /// Once all digits are confirmed no key is compared any more, but any
    /// key sends a fir tree on its way back.
    pub open spec fn guessed(self, key: Key, current_frame: i32) -> GameView {
        if self.accepts(key) {
            let confirmed = self.confirmed.push(self.solution[self.confirmed.len() as int]);
            GameView {
                confirmed,
                state: if confirmed.len() == self.solution.len() {
                    SnowmanStates::MorphingIntoAFirTree(current_frame)
                } else {
                    self.state
                },
                ..self
            }
        } else if self.is_complete() && self.state == SnowmanStates::IsFirTree() {
            GameView { state: SnowmanStates::MorphingFromAFirTree(current_frame), ..self }
        } else {
            self
        }
    }

    /// The session after `key` was typed: the key is tried as a digit, and
    /// then `R` stops the session and `Q` stops it for good.
    pub open spec fn typed(self, key: Key, current_frame: i32) -> GameView {
        let guessed = self.guessed(key, current_frame);
        match key {
            Key::R => GameView { stopped: true, ..guessed },
            Key::Q => GameView { stopped: true, user_quit: true, ..guessed },
            _ => guessed,
        }
    }

    /// The session after a task was handled.
    pub open spec fn handled(self, task: GameTasks, current_frame: i32) -> GameView {
        match task {
            GameTasks::Close => GameView { stopped: true, ..self },
            GameTasks::ClickPressed(_, x, y) => GameView {
                state: if self.state != SnowmanStates::IsFirTree() {
                    SnowmanStates::DeformationToAvoidPoint(x, y, current_frame)
                } else {
                    SnowmanStates::MorphingFromAFirTree(current_frame)
                },
                ..self
            },
            GameTasks::ClickReleased(_, x, y) => GameView {
                state: SnowmanStates::ReverseDeformationToAvoidPoint(x, y, current_frame),
                ..self
            },
            GameTasks::Typed(key) => self.typed(key, current_frame),
            _ => self,
        }
    }

    /// What the player is told when a task is handled. While a digit is
    /// left to find every key is a guess, and a key that is no digit is a
    /// wrong one.
    pub open spec fn feedback(self, task: GameTasks) -> Feedback {
        match task {
            GameTasks::Typed(key) => if self.is_complete() {
                Feedback::Nothing
            } else if !self.accepts(key) {
                Feedback::GuessedWrong
            } else if self.confirmed.len() + 1 == self.solution.len() {
                Feedback::Solved
            } else {
                Feedback::GuessedRight
            },
            _ => Feedback::Nothing,
        }
    }

    /// The session after the idle snowman was given its chance to melt:
    /// with `roll` drawn evenly from all of `u8`, it starts to melt in
    /// `melt_odds` of 256 cases. Only an idle snowman melts by itself.
    pub open spec fn melted_by_chance(self, roll: u8, current_frame: i32) -> GameView {
        if self.state == SnowmanStates::Idle && roll < self.melt_odds {
            GameView { state: SnowmanStates::Melting(current_frame), ..self }
        } else {
            self
        }
    }

    /// The session after its frame was drawn: the hat has settled.
    pub open spec fn rendered(self, current_frame: i32) -> GameView {
        GameView { renderer: self.renderer.after_render(self.state, current_frame), ..self }
    }

    /// The session after a run of tasks was handled in order.
    pub open spec fn after_tasks(self, tasks: Seq<GameTasks>, current_frame: i32) -> GameView
        decreases tasks.len(),
    {
        if tasks.len() == 0 {
            self
        } else {
            self.after_tasks(tasks.drop_last(), current_frame).handled(tasks.last(), current_frame)
        }
    }

    /// What the player is told while a run of tasks is handled in order.
    pub open spec fn told_by_tasks(self, tasks: Seq<GameTasks>, current_frame: i32) -> Seq<
        Feedback,
    >
        decreases tasks.len(),
    {
        if tasks.len() == 0 {
            Seq::empty()
        } else {
            self.told_by_tasks(tasks.drop_last(), current_frame).push(
                self.after_tasks(tasks.drop_last(), current_frame).feedback(tasks.last()),
            )
        }
    }

    /// The session after one frame in which `tasks` came in and the idle
    /// snowman drew `roll`: the state machine takes its step, the tasks are
    /// handled in order, the idle snowman gets its chance to melt, and the
    /// frame is drawn.
    pub open spec fn after_frame(self, tasks: Seq<GameTasks>, roll: u8, current_frame: i32) -> GameView {
        self.before_render(tasks, roll, current_frame).rendered(current_frame)
    }

    /// The session in the middle of such a frame, when all is done but the
    /// drawing.
    pub open spec fn before_render(self, tasks: Seq<GameTasks>, roll: u8, current_frame: i32) -> GameView {
        self.advanced(current_frame).after_tasks(tasks, current_frame).melted_by_chance(
            roll,
            current_frame,
        )
    }

    /// Whether `r` is what drawing this session at `current_frame` gives:
    /// what the renderer shows of the confirmed digits and the state.
    pub open spec fn draws(self, current_frame: i32, r: Result<Scene, ShapeError>) -> bool {
        self.renderer.shows(self.confirmed, current_frame, self.state, r)
    }

    /// What the player is told in one frame: first by the state machine,
    /// then for each task.
    pub open spec fn told_in_frame(self, tasks: Seq<GameTasks>, current_frame: i32) -> Seq<Feedback> {
        seq![
            if self.state.ends_session(current_frame, self.duration) {
                Feedback::Finished
            } else {
                Feedback::Nothing
            },
        ] + self.advanced(current_frame).told_by_tasks(tasks, current_frame)
    }

    /// Why the session has stopped, if it has. That the player asked to
    /// leave counts before a win.
    pub open spec fn termination(self) -> Option<Termination> {
        if !self.stopped {
            None
        } else if self.user_quit {
            Some(Termination::Quit)
        } else if self.won {
            Some(Termination::Won)
        } else {
            Some(Termination::Stopped)
        }
    }
}

impl View for Game {
    type V = GameView;

    closed spec fn view(&self) -> GameView {
        GameView {
            origin: self.origin@,
            solution: self.game_solution_binary@,
            confirmed: self.player_input@,
            state: self.snowman_state,
            duration: self.snowman_animation_duration,
            renderer: self.renderer,
            stopped: self.is_stopped,
            user_quit: self.is_user_terminated,
            won: self.is_won,
            melt_odds: self.idle_melt_odds,
        }
    }
}

impl Game {
    #[verifier::type_invariant]
    spec fn inv(self) -> bool {
        self@.wf()
    }

    /// Whether the player asked to leave the game.
    pub fn got_closed_by_user(&self) -> (quit: bool)
        ensures
            quit == self@.user_quit,
    {
        return self.is_user_terminated;
    }

    /// Whether the session is over.
    pub fn is_stopped(&self) -> (stopped: bool)
        ensures
            stopped == self@.stopped,
    {
        self.is_stopped
    }

    /// Whether the player has won.
    pub fn is_won(&self) -> (won: bool)
        ensures
            won == self@.won,
    {
        self.is_won
    }

    /// Why the session has stopped, if it has.
    pub fn termination(&self) -> (reason: Option<Termination>)
        ensures
            reason == self@.termination(),
    {
        if !self.is_stopped {
            None
        } else if self.is_user_terminated {
            Some(Termination::Quit)
        } else if self.is_won {
            Some(Termination::Won)
        } else {
            Some(Termination::Stopped)
        }
    }

    /// What the snowman is doing.
    pub fn snowman_state(&self) -> (state: SnowmanStates)
        ensures
            state == self@.state,
    {
        self.snowman_state
    }

    /// The number of frames that every animation runs.
    pub fn animation_duration(&self) -> (duration: i32)
        ensures
            duration == self@.duration,
    {
        self.snowman_animation_duration
    }

    /// The decimal digits of the secret, as they are shown.
    pub fn origin(&self) -> (origin: &Vec<char>)
        ensures
            origin@ == self@.origin,
    {
        &self.origin
    }

    /// The binary digits of the secret, most significant first.
    pub fn solution(&self) -> (solution: &Vec<u8>)
        ensures
            solution@ == self@.solution,
    {
        &self.game_solution_binary
    }

    /// The digits that the player has confirmed so far.
    pub fn player_input(&self) -> (confirmed: &Vec<u8>)
        ensures
            confirmed@ == self@.confirmed,
    {
        &self.player_input
    }

    /// The renderer, with the anchors of the hat.
    pub fn renderer(&self) -> (renderer: Renderer)
        ensures
            renderer == self@.renderer,
    {
        self.renderer
    }

    /// In how many of 256 frames an idle snowman starts to melt by itself.
    pub fn idle_melt_odds(&self) -> (odds: u8)
        ensures
            odds == self@.melt_odds,
    {
        self.idle_melt_odds
    }

    /// Sets in how many of 256 frames an idle snowman starts to melt by
    /// itself. Zero, which a new session has, switches that off.
    pub fn set_idle_melt_odds(&mut self, odds: u8)
        ensures
            final(self)@ == (GameView { melt_odds: odds, ..old(self)@ }),
            final(self)@.wf(),
    {
        proof {
            use_type_invariant(&*self);
        }
        self.idle_melt_odds = odds;
    }

    /// Handles one task that the input asks for.
    pub fn handle(&mut self, task: GameTasks, current_frame: i32) -> (told: Feedback)
        ensures
            final(self)@ == old(self)@.handled(task, current_frame),
            final(self)@.wf(),
            told == old(self)@.feedback(task),
    {
        proof {
            use_type_invariant(&*self);
        }
        let mut told: Feedback = Feedback::Nothing;
        match task {
            GameTasks::Close => {
                self.is_stopped = true;
            },
            GameTasks::ClickPressed(_, x, y) => {
                if self.snowman_state != SnowmanStates::IsFirTree() {
                    self.snowman_state = SnowmanStates::DeformationToAvoidPoint(x, y, current_frame);
                } else {
                    self.snowman_state = SnowmanStates::MorphingFromAFirTree(current_frame);
                }
            },
            GameTasks::ClickReleased(_, x, y) => {
                self.snowman_state = SnowmanStates::ReverseDeformationToAvoidPoint(
                    x,
                    y,
                    current_frame,
                );
            },
            GameTasks::Typed(key) => {
                if self.game_solution_binary.len() != self.player_input.len() {
                    let expected: u8 = self.game_solution_binary[self.player_input.len()];
                    if key.digit() == Some(expected) && self.snowman_state
                        != SnowmanStates::IsFirTree() {
                        let mut confirmed: Vec<u8> = self.player_input.clone();
                        confirmed.push(expected);
                        assert(confirmed@ =~= self.game_solution_binary@.take(confirmed@.len() as int));
                        self.player_input = confirmed;
                        told = Feedback::GuessedRight;
                        if self.game_solution_binary.len() == self.player_input.len() {
                            self.snowman_state = SnowmanStates::MorphingIntoAFirTree(current_frame);
                            told = Feedback::Solved;
                        }
                    } else {
                        told = Feedback::GuessedWrong;
                    }
                } else if self.snowman_state == SnowmanStates::IsFirTree() {
                    self.snowman_state = SnowmanStates::MorphingFromAFirTree(current_frame);
                }
                match key {
                    Key::R => {
                        self.is_stopped = true;
                    },
                    Key::Q => {
                        self.is_user_terminated = true;
                        self.is_stopped = true;
                    },
                    _ => {},
                }
            },
            _ => {},
        }
        told
    }

    /// Gives the idle snowman its chance to melt, with a `roll` that was
    /// drawn evenly from all of `u8`.
    pub fn idle_melt(&mut self, roll: u8, current_frame: i32)
        ensures
            final(self)@ == old(self)@.melted_by_chance(roll, current_frame),
            final(self)@.wf(),
    {
        proof {
            use_type_invariant(&*self);
        }
        if self.snowman_state == SnowmanStates::Idle && roll < self.idle_melt_odds {
            self.snowman_state = SnowmanStates::Melting(current_frame);
        }
    }

    /// Gives the idle snowman its chance to melt, with a number drawn at
    /// random. Whatever is drawn, the session is as `melted_by_chance` says
    /// for some roll; with odds of zero nothing is drawn and nothing changes.
    pub fn roll_idle_melt(&mut self, current_frame: i32) -> (roll: u8)
        ensures
            final(self)@ == old(self)@.melted_by_chance(roll, current_frame),
            final(self)@.wf(),
            old(self)@.melt_odds == 0 ==> final(self)@ == old(self)@,
    {
        proof {
            use_type_invariant(&*self);
        }
        if self.idle_melt_odds == 0 {
            return 0;
        }
        let roll: u8 = random_roll();
        self.idle_melt(roll, current_frame);
        roll
    }

    /// Works out what is to be drawn at `current_frame` and lets the hat
    /// settle on the figure.
    pub fn render(&mut self, current_frame: i32) -> (r: Result<Scene, ShapeError>)
        ensures
            final(self)@ == old(self)@.rendered(current_frame),
            final(self)@.wf(),
            old(self)@.draws(current_frame, r),
    {
        proof {
            use_type_invariant(&*self);
        }
        let mut renderer: Renderer = self.renderer;
        let r = renderer.render(&self.player_input, current_frame, self.snowman_state);
        self.renderer = renderer;
        r
    }

    /// One frame of the session: the state machine takes its step, the
    /// events are handled in order, the idle snowman gets its chance to
    /// melt, and the frame is drawn.
    ///
    /// The roll of the idle snowman is drawn at random, so the session is as
    /// `after_frame` says for the roll that the frame holds; with odds of
    /// zero the roll counts for nothing.
    pub fn tick(&mut self, events: &Vec<Event>, current_frame: i32) -> (frame: Frame)
        ensures
            final(self)@ == old(self)@.after_frame(tasks_of(events@), frame.roll, current_frame),
            final(self)@.wf(),
            frame.told@ == old(self)@.told_in_frame(tasks_of(events@), current_frame),
            old(self)@.before_render(tasks_of(events@), frame.roll, current_frame).draws(
                current_frame,
                frame.scene,
            ),
    {
        let ghost begun = self@.advanced(current_frame);
        let ghost tasks = tasks_of(events@);
        let mut told: Vec<Feedback> = Vec::new();
        let first: Feedback = self.advance(current_frame);
        told.push(first);
        let mut i: usize = 0;
        while i < events.len()
            invariant
                i <= events.len(),
                tasks == tasks_of(events@),
                self@ == begun.after_tasks(tasks.take(i as int), current_frame),
                told@ == seq![first] + begun.told_by_tasks(tasks.take(i as int), current_frame),
            decreases events.len() - i,
        {
            let task: GameTasks = self.input.parse_input(events[i]).unwrap();
            proof {
                assert(tasks.take(i + 1).drop_last() =~= tasks.take(i as int));
                assert(tasks.take(i + 1).last() == task);
            }
            let heard: Feedback = self.handle(task, current_frame);
            told.push(heard);
            assert(told@ =~= seq![first] + begun.told_by_tasks(
                tasks.take(i + 1),
                current_frame,
            ));
            i = i + 1;
        }
        assert(tasks.take(events.len() as int) =~= tasks);
        let roll: u8 = self.roll_idle_melt(current_frame);
        let scene = self.render(current_frame);
        Frame { told, scene, roll }
    }

    /// How many frames fit into a second when one frame took
    /// `elapsed_milliseconds`; zero for a frame that took no time at all.
    pub fn frame_rate(elapsed_milliseconds: i32) -> (rate: i32)
        ensures
            rate == frames_in_a_second(elapsed_milliseconds as int),
    {
        if elapsed_milliseconds > 0 {
            1000 / elapsed_milliseconds
        } else if elapsed_milliseconds < 0 {
            let rate: i64 = -(1000 / (-(elapsed_milliseconds as i64)));
            rate as i32
        } else {
            0
        }
    }

    /// The step of the state machine that begins a frame.
    pub fn advance(&mut self, current_frame: i32) -> (told: Feedback)
        ensures
            final(self)@ == old(self)@.advanced(current_frame),
            final(self)@.wf(),
            told == if old(self)@.state.ends_session(current_frame, old(self)@.duration) {
                Feedback::Finished
            } else {
                Feedback::Nothing
            },
    {
        proof {
            use_type_invariant(&*self);
        }
        let over: bool = match self.snowman_state {
            SnowmanStates::MorphingFromAFirTree(_) => self.snowman_state.has_run_out(
                current_frame,
                self.snowman_animation_duration,
            ),
            _ => false,
        };
        self.snowman_state = self.snowman_state.advance(current_frame, self.snowman_animation_duration);
        if over {
            self.is_stopped = true;
            self.is_won = true;
            Feedback::Finished
        } else {
            Feedback::Nothing
        }
    }
}

/// The key of the number row for a binary digit.
pub open spec fn digit_key(digit: u8) -> Key {
    if digit == 0 {
        Key::Num0
    } else {
        Key::Num1
    }
}

/// The tasks of typing binary digits in order on the number row.
pub open spec fn typing(digits: Seq<u8>) -> Seq<GameTasks> {
    Seq::new(digits.len(), |i: int| GameTasks::Typed(digit_key(digits[i])))
}

/// Every step leaves a session well formed.
pub proof fn lemma_steps_keep_wf(game: GameView, task: GameTasks, roll: u8, current_frame: i32)
    requires
        game.wf(),
    ensures
        game.advanced(current_frame).wf(),
        game.handled(task, current_frame).wf(),
        game.melted_by_chance(roll, current_frame).wf(),
        game.rendered(current_frame).wf(),
{
    if let GameTasks::Typed(key) = task {
        if game.accepts(key) {
            let n = game.confirmed.len() as int;
            assert(game.confirmed.push(game.solution[n]) =~= game.solution.take(n + 1));
        }
    }
}

/// The digits that the player has confirmed are digits of the secret in
/// their order, and once all are confirmed they spell the secret: read in
/// order, each digit doubling what was read before, they give the number
/// that the session was made for.
pub proof fn lemma_confirmed_digits_spell_secret(game: GameView)
    requires
        game.wf(),
    ensures
        forall|i: int| 0 <= i < game.confirmed.len() ==> game.confirmed[i] == game.solution[i],
        game.is_complete() ==> game.confirmed == secret_bits(game.number()) && replayed(
            game.confirmed,
        ) == game.number(),
{
    if game.is_complete() {
        assert(game.solution.take(game.solution.len() as int) =~= game.solution);
    }
}

/// A key that is not the next digit changes nothing and is a wrong guess,
/// while there is a digit left to find.
pub proof fn lemma_wrong_key_changes_nothing(game: GameView, key: Key, current_frame: i32)
    requires
        !game.is_complete(),
        !game.accepts(key),
        key != Key::R,
        key != Key::Q,
    ensures
        game.handled(GameTasks::Typed(key), current_frame) == game,
        game.feedback(GameTasks::Typed(key)) == Feedback::GuessedWrong,
{
}

/// The first `count` digits of the secret, typed in order into a new
/// session, are confirmed one by one; the last of them starts the morph into
/// the fir tree.
pub proof fn lemma_typing_confirms(number: u8, duration: i32, current_frame: i32, count: nat)
    requires
        count <= BIT_COUNT,
    ensures
        GameView::initial(number, duration).after_tasks(
            typing(secret_bits(number as int)).take(count as int),
            current_frame,
        ) == (GameView {
            confirmed: secret_bits(number as int).take(count as int),
            state: if count == BIT_COUNT {
                SnowmanStates::MorphingIntoAFirTree(current_frame)
            } else {
                SnowmanStates::Idle
            },
            ..GameView::initial(number, duration)
        }),
    decreases count,
{
    let start = GameView::initial(number, duration);
    let bits = secret_bits(number as int);
    let keys = typing(bits);
    crate::game::secret::lemma_bits_spell_number(number);
    if count == 0 {
        assert(bits.take(0) =~= Seq::<u8>::empty());
    } else {
        lemma_typing_confirms(number, duration, current_frame, (count - 1) as nat);
        let before = start.after_tasks(keys.take(count - 1), current_frame);
        assert(keys.take(count as int).drop_last() =~= keys.take(count - 1));
        assert(keys.take(count as int).last() == GameTasks::Typed(digit_key(bits[count - 1])));
        assert(before.accepts(digit_key(bits[count - 1])));
        assert(bits.take(count - 1).push(bits[count - 1]) =~= bits.take(count as int));
    }
}

/// Typing the binary digits of the secret in order, most significant first,
/// solves the puzzle: every digit is confirmed, the snowman starts to turn
/// into a fir tree, and once that morph has run its course it is one. The
/// session goes on.
pub proof fn lemma_typing_the_secret_solves(
    number: u8,
    duration: i32,
    current_frame: i32,
    later_frame: i32,
)
    ensures
        ({
            let solved = GameView::initial(number, duration).after_tasks(
                typing(secret_bits(number as int)),
                current_frame,
            );
            &&& solved.confirmed == secret_bits(number as int)
            &&& replayed(solved.confirmed) == number
            &&& solved.state == SnowmanStates::MorphingIntoAFirTree(current_frame)
            &&& !solved.stopped
            &&& later_frame - current_frame >= duration ==> solved.advanced(later_frame).state
                == SnowmanStates::IsFirTree() && !solved.advanced(later_frame).stopped
        }),
{
    let bits = secret_bits(number as int);
    crate::game::secret::lemma_bits_spell_number(number);
    lemma_typing_confirms(number, duration, current_frame, BIT_COUNT as nat);
    assert(typing(bits).take(BIT_COUNT as int) =~= typing(bits));
    assert(bits.take(BIT_COUNT as int) =~= bits);
}

/// Once a session is stopped it stays stopped through every task, and so it
/// is with the player's wish to leave.
pub proof fn lemma_stop_is_kept(game: GameView, tasks: Seq<GameTasks>, current_frame: i32)
    ensures
        game.stopped ==> game.after_tasks(tasks, current_frame).stopped,
        game.user_quit ==> game.after_tasks(tasks, current_frame).user_quit,
    decreases tasks.len(),
{
    if tasks.len() > 0 {
        lemma_stop_is_kept(game, tasks.drop_last(), current_frame);
    }
}

/// The key `Q` stops the session and marks it as left by the player,
/// whatever the snowman is doing, and it does so within its frame: wherever
/// among the tasks of a frame the key comes, the session is stopped and
/// left when the frame is over.
pub proof fn lemma_quit_stops_within_frame(
    game: GameView,
    tasks: Seq<GameTasks>,
    i: int,
    roll: u8,
    current_frame: i32,
)
    requires
        0 <= i < tasks.len(),
        tasks[i] == GameTasks::Typed(Key::Q),
    ensures
        game.handled(GameTasks::Typed(Key::Q), current_frame).stopped,
        game.handled(GameTasks::Typed(Key::Q), current_frame).user_quit,
        game.after_tasks(tasks, current_frame).stopped,
        game.after_tasks(tasks, current_frame).user_quit,
        game.after_frame(tasks, roll, current_frame).stopped,
        game.after_frame(tasks, roll, current_frame).user_quit,
        game.after_frame(tasks, roll, current_frame).termination() == Some(Termination::Quit),
    decreases tasks.len(),
{
    if i < tasks.len() - 1 {
        lemma_quit_stops_within_frame(game, tasks.drop_last(), i, roll, current_frame);
    }
    let begun = game.advanced(current_frame);
    if i < tasks.len() - 1 {
        lemma_quit_stops_within_frame(begun, tasks.drop_last(), i, roll, current_frame);
    }
}

/// A click on the fir tree sends it on its way back to the snowman, and
/// once that morph has run its course the session is not merely idle: it is
/// stopped and won.
pub proof fn lemma_click_on_tree_wins(
    game: GameView,
    button: crate::game::game_tasks::Button,
    x: i32,
    y: i32,
    current_frame: i32,
    later_frame: i32,
)
    requires
        game.state == SnowmanStates::IsFirTree(),
    ensures
        ({
            let clicked = game.handled(GameTasks::ClickPressed(button, x, y), current_frame);
            let over = clicked.advanced(later_frame);
            &&& clicked.state == SnowmanStates::MorphingFromAFirTree(current_frame)
            &&& later_frame - current_frame >= game.duration ==> {
                &&& over.state == SnowmanStates::Idle
                &&& over.stopped
                &&& over.won
                &&& !game.user_quit ==> over.termination() == Some(Termination::Won)
            }
            &&& later_frame - current_frame < game.duration ==> over == clicked
        }),
{
}

/// How many frames fit into a second when one frame takes `elapsed`
/// milliseconds: one thousand by `elapsed`, rounded towards zero, and zero
/// for a frame that takes no time.
pub open spec fn frames_in_a_second(elapsed: int) -> int {
    if elapsed > 0 {
        1000int / elapsed
    } else if elapsed < 0 {
        -(1000int / (-elapsed))
    } else {
        0
    }
}

/// A new session for the secret `number`, with animations that run
/// `snowman_animation_duration` frames. The snowman is idle, no digit is
/// confirmed, and the idle snowman does not melt by itself.
pub fn new(number: u8, snowman_animation_duration: i32) -> (game: Game)
    ensures
        game@ == GameView::initial(number, snowman_animation_duration),
        game@.wf(),
        game@.number() == number,
{
    proof {
        crate::game::secret::lemma_bits_spell_number(number);
        assert(secret_bits(number as int).take(0) =~= Seq::<u8>::empty());
    }
    Game {
        origin: to_decimal(number),
        game_solution_binary: to_bits(number),
        player_input: Vec::with_capacity(8),
        snowman_state: SnowmanStates::Idle,
        snowman_animation_duration,
        input: crate::game::input::new(),
        renderer: crate::game::renderer::new(
            Point { x: 0, y: 600000 },
            snowman_animation_duration,
        ),
        is_stopped: false,
        is_user_terminated: false,
        is_won: false,
        idle_melt_odds: 0,
    }
}

} // verus!
