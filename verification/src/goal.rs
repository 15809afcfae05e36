use vstd::prelude::*;

verus! {

/// What a goal-driven object asks of its goal scripts next.
#[derive(PartialEq, Eq, Structural, Clone, Copy, Debug)]
pub enum GoalAction {
    /// Nothing more this turn.
    Idle,
    /// Run the update of the running goal.
    Update(usize),
    /// Ask the running goal whether it should stop.
    AskStop(usize),
    /// Ask this goal whether it should start.
    AskStart(usize),
    /// Run the set-up of the goal that has just started.
    Init(usize),
}

/// The names of the goal scripts that loaded, in order; a script that failed
/// to load (`Err`, with its error) is left out.
pub open spec fn loaded_names(scripts: Seq<Result<String, String>>) -> Seq<String>
    decreases scripts.len(),
{
    if scripts.len() == 0 {
        Seq::empty()
    } else {
        let rest = loaded_names(scripts.drop_last());
        match scripts.last() {
            Ok(name) => rest.push(name),
            Err(_) => rest,
        }
    }
}

/// The goals of an object driven by goal scripts, named in the order they are
/// tried, with the goal that is running (if any), the goal that ran last, and
/// the error of the last script that failed. Once a script has failed, the
/// object no longer acts.
pub struct GoalBehavior {
    goals: Vec<String>,
    prev_goal: String,
    index: Option<usize>,
    err: Option<String>,
}

impl GoalBehavior {
    #[verifier::type_invariant]
    closed spec fn well_formed(&self) -> bool {
        self.index matches Some(i) ==> i < self.goals@.len()
    }

    pub closed spec fn goal_names(&self) -> Seq<String> {
        self.goals@
    }

    pub closed spec fn prev_goal_spec(&self) -> Seq<char> {
        self.prev_goal@
    }

    pub closed spec fn running(&self) -> Option<usize> {
        self.index
    }

    pub closed spec fn error(&self) -> Option<String> {
        self.err
    }

    /// The goal behavior with the given goals, none of which has run yet.
    pub fn new(goals: Vec<String>) -> (res: Self)
        ensures
            res.goal_names() == goals@,
            res.prev_goal_spec() == "none"@,
            res.running() is None,
            res.error() is None,
    {
        GoalBehavior { goals, prev_goal: String::from_str("none"), index: None, err: None }
    }

    /// The goal behavior with the goal scripts that loaded, in order, given each
    /// script's name or the error it failed to load with; the scripts that
    /// failed are left out.
    pub fn from_scripts(scripts: Vec<Result<String, String>>) -> (res: Self)
        ensures
            res.goal_names() == loaded_names(scripts@),
            res.prev_goal_spec() == "none"@,
            res.running() is None,
            res.error() is None,
    {
        let mut goals: Vec<String> = Vec::new();
        let mut k: usize = 0;
        while k < scripts.len()
            invariant
                k <= scripts@.len(),
                goals@ == loaded_names(scripts@.take(k as int)),
            decreases scripts@.len() - k,
        {
            proof {
                assert(scripts@.take(k + 1).drop_last() =~= scripts@.take(k as int));
            }
            match &scripts[k] {
                Ok(name) => goals.push(name.clone()),
                Err(_) => {},
            }
            k = k + 1;
        }
        proof {
            assert(scripts@.take(scripts@.len() as int) =~= scripts@);
        }
        GoalBehavior::new(goals)
    }

    /// The goal that is running, if any.
    pub fn index(&self) -> (res: Option<usize>)
        ensures
            res == self.running(),
            res matches Some(i) ==> i < self.goal_names().len(),
    {
        proof {
            use_type_invariant(self);
        }
        self.index
    }

    /// The name of the goal that ran last.
    pub fn prev_goal(&self) -> (res: &str)
        ensures
            res@ == self.prev_goal_spec(),
    {
        self.prev_goal.as_str()
    }

    /// The error of the script that failed, if one has.
    pub fn err(&self) -> (res: Option<&String>)
        ensures
            res matches Some(e) ==> self.error() == Some(*e),
            res is None <==> self.error() is None,
    {
        match &self.err {
            Some(e) => Some(e),
            None => None,
        }
    }

    /// Forgets the running goal (a stunned object drops what it was doing).
    pub fn interrupt(&mut self)
        ensures
            final(self).running() is None,
            final(self).goal_names() == old(self).goal_names(),
            final(self).prev_goal_spec() == old(self).prev_goal_spec(),
            final(self).error() == old(self).error(),
    {
        proof {
            use_type_invariant(&*self);
        }
        self.index = None;
    }

    /// Whether two goal behaviors have made the same progress: the same goal
    /// running and the same goal last run.
    pub fn same_progress(&self, other: &Self) -> (res: bool)
        ensures
            res == (self.running() == other.running() && self.prev_goal_spec() == other.prev_goal_spec()),
    {
        let same_index = match (self.index, other.index) {
            (Some(a), Some(b)) => a == b,
            (None, None) => true,
            _ => false,
        };
        same_index && self.prev_goal == other.prev_goal
    }

    /// The first thing to do in a turn: nothing once a script has failed; the
    /// update of the running goal if one runs; otherwise ask the first goal
    /// whether it should start (nothing when there are no goals).
    pub fn next_action(&self) -> (res: GoalAction)
        ensures
            self.error() is Some ==> res == GoalAction::Idle,
            self.error() is None ==> res == match self.running() {
                Some(i) => GoalAction::Update(i),
                None => if self.goal_names().len() > 0 {
                    GoalAction::AskStart(0)
                } else {
                    GoalAction::Idle
                },
            },
    {
        if self.err.is_some() {
            return GoalAction::Idle;
        }
        match self.index {
            Some(i) => GoalAction::Update(i),
            None => if self.goals.len() > 0 {
                GoalAction::AskStart(0)
            } else {
                GoalAction::Idle
            },
        }
    }

    /// After the running goal updated: on failure the error is kept and the
    /// turn ends; otherwise the goal is asked whether it should stop.
    pub fn on_update(&mut self, i: usize, result: Result<(), String>) -> (res: GoalAction)
        ensures
            final(self).goal_names() == old(self).goal_names(),
            final(self).prev_goal_spec() == old(self).prev_goal_spec(),
            final(self).running() == old(self).running(),
            match result {
                Err(e) => res == GoalAction::Idle && final(self).error() == Some(e),
                Ok(_) => res == GoalAction::AskStop(i) && final(self).error() == old(self).error(),
            },
    {
        proof {
            use_type_invariant(&*self);
        }
        match result {
            Err(e) => {
                self.err = Some(e);
                GoalAction::Idle
            },
            Ok(_) => GoalAction::AskStop(i),
        }
    }

    /// After the running goal `i` answered whether it should stop: on failure
    /// the error is kept; when it stops it becomes the goal that ran last and
    /// no goal runs. The turn ends either way. Gives whether the goal stopped
    /// (the object then returns to its default animation).
    pub fn on_should_stop(&mut self, i: usize, result: Result<bool, String>) -> (stopped: bool)
        requires
            i < old(self).goal_names().len(),
        ensures
            final(self).goal_names() == old(self).goal_names(),
            stopped == (result == Ok::<bool, String>(true)),
            match result {
                Err(e) => final(self).error() == Some(e) && final(self).running() == old(self).running()
                    && final(self).prev_goal_spec() == old(self).prev_goal_spec(),
                Ok(true) => final(self).error() == old(self).error() && final(self).running() is None
                    && final(self).prev_goal_spec() == old(self).goal_names()[i as int]@,
                Ok(false) => final(self).error() == old(self).error() && final(self).running() == old(
                    self,
                ).running() && final(self).prev_goal_spec() == old(self).prev_goal_spec(),
            },
    {
        proof {
            use_type_invariant(&*self);
        }
        match result {
            Err(e) => {
                self.err = Some(e);
                false
            },
            Ok(true) => {
                self.prev_goal = self.goals[i].clone();
                self.index = None;
                true
            },
            Ok(false) => false,
        }
    }

    /// After goal `i` answered whether it should start: when it starts it
    /// becomes the running goal and is set up; otherwise the next goal is asked,
    /// until none is left. A failure is kept as the error, and the next goal is
    /// still asked.
    pub fn on_should_start(&mut self, i: usize, result: Result<bool, String>) -> (res: GoalAction)
        requires
            i < old(self).goal_names().len(),
        ensures
            final(self).goal_names() == old(self).goal_names(),
            final(self).prev_goal_spec() == old(self).prev_goal_spec(),
            match result {
                Ok(true) => res == GoalAction::Init(i) && final(self).running() == Some(i)
                    && final(self).error() == old(self).error(),
                Ok(false) => final(self).running() == old(self).running() && final(self).error() == old(
                    self,
                ).error(),
                Err(e) => final(self).running() == old(self).running() && final(self).error() == Some(e),
            },
            result != Ok::<bool, String>(true) ==> res == if i + 1 < old(self).goal_names().len() {
                GoalAction::AskStart((i + 1) as usize)
            } else {
                GoalAction::Idle
            },
    {
        proof {
            use_type_invariant(&*self);
        }
        let asked_all = i >= self.goals.len() - 1;
        match result {
            Ok(true) => {
                self.index = Some(i);
                GoalAction::Init(i)
            },
            Ok(false) => if asked_all {
                GoalAction::Idle
            } else {
                GoalAction::AskStart(i + 1)
            },
            Err(e) => {
                self.err = Some(e);
                if asked_all {
                    GoalAction::Idle
                } else {
                    GoalAction::AskStart(i + 1)
                }
            },
        }
    }

    /// After the goal that has just started was set up: a failure is kept as
    /// the error. The turn ends either way.
    pub fn on_init(&mut self, result: Result<(), String>)
        ensures
            final(self).goal_names() == old(self).goal_names(),
            final(self).prev_goal_spec() == old(self).prev_goal_spec(),
            final(self).running() == old(self).running(),
            match result {
                Err(e) => final(self).error() == Some(e),
                Ok(_) => final(self).error() == old(self).error(),
            },
    {
        proof {
            use_type_invariant(&*self);
        }
        if let Err(e) = result {
            self.err = Some(e);
        }
    }
}

impl Clone for GoalBehavior {
    /// A copy with the same goals and the same progress, but no error: the
    /// copy acts again.
    fn clone(&self) -> (res: Self)
        ensures
            res.goal_names() == self.goal_names(),
            res.prev_goal_spec() == self.prev_goal_spec(),
            res.running() == self.running(),
            res.error() is None,
    {
        proof {
            use_type_invariant(self);
        }
        let goals = self.goals.clone();
        proof {
            assert(goals@ =~= self.goals@);
        }
        GoalBehavior { goals, prev_goal: self.prev_goal.clone(), index: self.index, err: None }
    }
}

} // verus!
