//! Workspaces: before a command addresses a path in the workspace of a
//! user, the shared base directory and the directory of the user are made
//! sure of, and created where they are missing.

use crate::failure::Fault;
use crate::paths::{
    base_directory, base_directory_path, child, workspace_root, workspace_root_path,
};
use crate::protocol::{
    break_down, breakdown, fits_buffer, lemma_plays_after, plays, Action, ActionModel, Exchange,
    Outcome, OutcomeModel, Reply, ReplyModel, Turn, TurnModel,
};
use crate::stat::RemoteStat;
use crate::CHUNK_SIZE;
use vstd::prelude::*;
use vstd::string::*;

verus! {

/// The permissions with which directories are created: `rwxr-xr-x`.
pub const DIRECTORY_MODE: i32 = 0o755;

/// Where the provisioning of a workspace stands: the action that it waits
/// for.
#[derive(Clone, Copy, Debug, PartialEq, Eq, Structural)]
pub enum ProvisionStage {
    /// The base directory is being examined.
    CheckingBase,
    /// The base directory is being created.
    MakingBase,
    /// The directory of the user is being examined.
    CheckingUser,
    /// The directory of the user is being created.
    MakingUser,
}

/// The directory to list: the workspace of `user`, or the directory `path`
/// below it.
pub open spec fn target(home: Seq<char>, user: Seq<char>, path: Option<Seq<char>>) -> Seq<char> {
    match path {
        Some(p) => child(workspace_root(home, user), p),
        None => workspace_root(home, user),
    }
}

/// The provisioning of a workspace.
#[derive(Debug)]
pub struct Provision {
    stage: ProvisionStage,
    /// The home directory on the host.
    home: String,
    /// The name of the user.
    user: String,
}

/// A [`Provision`] as a mathematical value.
pub struct ProvisionModel {
    pub stage: ProvisionStage,
    pub home: Seq<char>,
    pub user: Seq<char>,
}

impl View for Provision {
    type V = ProvisionModel;

    closed spec fn view(&self) -> ProvisionModel {
        ProvisionModel { stage: self.stage, home: self.home@, user: self.user@ }
    }
}

impl ProvisionModel {
    /// The provisioning as it starts.
    pub open spec fn initial(home: Seq<char>, user: Seq<char>) -> ProvisionModel {
        ProvisionModel { stage: ProvisionStage::CheckingBase, home, user }
    }

    /// The first turn of the provisioning of the workspace of `user`.
    pub open spec fn start(home: Seq<char>, user: Seq<char>) -> TurnModel<ProvisionModel> {
        TurnModel::Perform(
            ProvisionModel::initial(home, user),
            ActionModel::Stat { path: base_directory(home) },
        )
    }

    /// The provisioning at `stage`, all else unchanged.
    pub open spec fn at(self, stage: ProvisionStage) -> ProvisionModel {
        ProvisionModel { stage, ..self }
    }

    /// The turn that waits at `stage` with `action`.
    pub open spec fn go(self, stage: ProvisionStage, action: ActionModel) -> TurnModel<
        ProvisionModel,
    > {
        TurnModel::Perform(self.at(stage), action)
    }

    /// The workspace of the user.
    pub open spec fn root(self) -> Seq<char> {
        workspace_root(self.home, self.user)
    }

    /// The turn that examines the directory of the user.
    pub open spec fn check_user(self) -> TurnModel<ProvisionModel> {
        self.go(ProvisionStage::CheckingUser, ActionModel::Stat { path: self.root() })
    }

    /// The turn with which the provisioning succeeds: with the workspace of
    /// the user.
    pub open spec fn done(self) -> TurnModel<ProvisionModel> {
        TurnModel::Finished(OutcomeModel::Content(self.root()))
    }

    /// The turn that the provisioning takes on `reply`. A directory that
    /// can be examined is there; one that cannot is created.
    pub open spec fn next(self, reply: ReplyModel) -> TurnModel<ProvisionModel> {
        match self.stage {
            ProvisionStage::CheckingBase => match reply {
                ReplyModel::Stat(_) => self.check_user(),
                ReplyModel::Unavailable(_) => TurnModel::Failed(
                    breakdown(Fault::CreateBase, base_directory(self.home), reply),
                ),
                _ => self.go(
                    ProvisionStage::MakingBase,
                    ActionModel::MakeDir { path: base_directory(self.home), mode: DIRECTORY_MODE },
                ),
            },
            ProvisionStage::MakingBase => match reply {
                ReplyModel::Done => self.check_user(),
                _ => TurnModel::Failed(
                    breakdown(Fault::CreateBase, base_directory(self.home), reply),
                ),
            },
            ProvisionStage::CheckingUser => match reply {
                ReplyModel::Stat(_) => self.done(),
                ReplyModel::Unavailable(_) => TurnModel::Failed(
                    breakdown(Fault::CreateUser, self.root(), reply),
                ),
                _ => self.go(
                    ProvisionStage::MakingUser,
                    ActionModel::MakeDir { path: self.root(), mode: DIRECTORY_MODE },
                ),
            },
            ProvisionStage::MakingUser => match reply {
                ReplyModel::Done => self.done(),
                _ => TurnModel::Failed(breakdown(Fault::CreateUser, self.root(), reply)),
            },
        }
    }

    /// The function by which the provisioning of a workspace steps.
    pub open spec fn stepper() -> spec_fn(ProvisionModel, ReplyModel) -> TurnModel<
        ProvisionModel,
    > {
        |m: ProvisionModel, reply: ReplyModel| m.next(reply)
    }
}

impl Provision {
    /// Starts to make sure of the workspace of the user `user` below the
    /// home directory `home`.
    pub fn start(home: String, user: String) -> (t: Turn<Provision>)
        ensures
            t@ == ProvisionModel::start(home@, user@),
    {
        let base = base_directory_path(home.as_str());
        Turn::Perform(
            Provision { stage: ProvisionStage::CheckingBase, home, user },
            Action::Stat { path: base },
        )
    }

    /// Computes [`ProvisionModel::go`].
    fn go(self, stage: ProvisionStage, action: Action) -> (t: Turn<Provision>)
        ensures
            t@ == self@.go(stage, action@),
    {
        let mut m = self;
        m.stage = stage;
        Turn::Perform(m, action)
    }

    /// The path of the base directory.
    fn base(&self) -> (r: String)
        ensures
            r@ == base_directory(self@.home),
    {
        base_directory_path(self.home.as_str())
    }

    /// Computes [`ProvisionModel::root`].
    fn root(&self) -> (r: String)
        ensures
            r@ == self@.root(),
    {
        workspace_root_path(self.home.as_str(), self.user.as_str())
    }

    /// Computes [`ProvisionModel::check_user`].
    fn check_user(self) -> (t: Turn<Provision>)
        ensures
            t@ == self@.check_user(),
    {
        let path = self.root();
        self.go(ProvisionStage::CheckingUser, Action::Stat { path })
    }

    /// Computes [`ProvisionModel::done`].
    fn done(self) -> (t: Turn<Provision>)
        ensures
            t@ == self@.done(),
    {
        Turn::Finished(Outcome::Content(self.root()))
    }

    /// Takes the reply to the action that the provisioning waits for, and
    /// gives the turn that follows.
    pub fn step(self, reply: Reply) -> (t: Turn<Provision>)
        ensures
            t@ == self@.next(reply@),
    {
        match self.stage {
            ProvisionStage::CheckingBase => match reply {
                Reply::Stat(_) => self.check_user(),
                Reply::Unavailable(_) => Turn::Failed(
                    break_down(Fault::CreateBase, self.base().as_str(), &reply),
                ),
                _ => {
                    let path = self.base();
                    self.go(
                        ProvisionStage::MakingBase,
                        Action::MakeDir { path, mode: DIRECTORY_MODE },
                    )
                },
            },
            ProvisionStage::MakingBase => match reply {
                Reply::Done => self.check_user(),
                _ => Turn::Failed(break_down(Fault::CreateBase, self.base().as_str(), &reply)),
            },
            ProvisionStage::CheckingUser => match reply {
                Reply::Stat(_) => self.done(),
                Reply::Unavailable(_) => Turn::Failed(
                    break_down(Fault::CreateUser, self.root().as_str(), &reply),
                ),
                _ => {
                    let path = self.root();
                    self.go(
                        ProvisionStage::MakingUser,
                        Action::MakeDir { path, mode: DIRECTORY_MODE },
                    )
                },
            },
            ProvisionStage::MakingUser => match reply {
                Reply::Done => self.done(),
                _ => Turn::Failed(break_down(Fault::CreateUser, self.root().as_str(), &reply)),
            },
        }
    }
}

/// The exchanges in which the directory at `path` is made sure of, with a
/// host on which it is there or not: it is examined, and created where the
/// examination fails.
pub open spec fn ensuring(path: Seq<char>, there: bool, stat: RemoteStat, why: Seq<char>) -> Seq<
    Exchange,
> {
    if there {
        seq![Exchange { action: ActionModel::Stat { path }, reply: ReplyModel::Stat(stat) }]
    } else {
        seq![
            Exchange { action: ActionModel::Stat { path }, reply: ReplyModel::Failed(why) },
            Exchange {
                action: ActionModel::MakeDir { path, mode: DIRECTORY_MODE },
                reply: ReplyModel::Done,
            },
        ]
    }
}

/// The exchanges of the provisioning of a workspace, with a host on which
/// the base directory and the directory of the user are there or not: the
/// base directory is made sure of, and then the directory of the user.
pub open spec fn provisioning(
    home: Seq<char>,
    user: Seq<char>,
    base_there: bool,
    user_there: bool,
    stat: RemoteStat,
    why: Seq<char>,
) -> Seq<Exchange> {
    ensuring(base_directory(home), base_there, stat, why) + ensuring(
        workspace_root(home, user),
        user_there,
        stat,
        why,
    )
}

/// The number of directories that the actions of `script` create.
pub open spec fn created(script: Seq<Exchange>) -> nat
    decreases script.len(),
{
    if script.len() == 0 {
        0
    } else {
        created(script.drop_last()) + if script.last().action is MakeDir {
            1nat
        } else {
            0nat
        }
    }
}

/// Provisioning does not fail over what is there or not. Whether the base
/// directory and the directory of the user are there or not, and so the
/// first time as well as any time after it, the provisioning performs the
/// exchanges of [`provisioning`] and succeeds with the same workspace,
/// where the host creates what is asked of it.
pub proof fn lemma_provisioning_plays(
    home: Seq<char>,
    user: Seq<char>,
    base_there: bool,
    user_there: bool,
    stat: RemoteStat,
    why: Seq<char>,
)
    ensures
        plays(
            ProvisionModel::stepper(),
            ProvisionModel::start(home, user),
            provisioning(home, user, base_there, user_there, stat, why),
            TurnModel::Finished(OutcomeModel::Content(workspace_root(home, user))),
        ),
{
    let step = ProvisionModel::stepper();
    let end = TurnModel::<ProvisionModel>::Finished(
        OutcomeModel::Content(workspace_root(home, user)),
    );
    let m = ProvisionModel::initial(home, user);
    let base = base_directory(home);
    let root = workspace_root(home, user);
    let none = Seq::<Exchange>::empty();
    assert(plays(step, end, none, end));
    // the directory of the user
    let second = ensuring(root, user_there, stat, why);
    let checking_user = m.at(ProvisionStage::CheckingUser);
    if user_there {
        assert(step(checking_user, ReplyModel::Stat(stat)) == end);
        lemma_plays_after(
            step,
            checking_user,
            ActionModel::Stat { path: root },
            ReplyModel::Stat(stat),
            none,
            end,
        );
        assert(second + none =~= second);
        assert(second =~= seq![
            Exchange { action: ActionModel::Stat { path: root }, reply: ReplyModel::Stat(stat) },
        ] + none);
    } else {
        let making = m.at(ProvisionStage::MakingUser);
        let make = ActionModel::MakeDir { path: root, mode: DIRECTORY_MODE };
        assert(step(checking_user, ReplyModel::Failed(why)) == TurnModel::Perform(making, make));
        assert(step(making, ReplyModel::Done) == end);
        lemma_plays_after(step, making, make, ReplyModel::Done, none, end);
        lemma_plays_after(
            step,
            checking_user,
            ActionModel::Stat { path: root },
            ReplyModel::Failed(why),
            seq![Exchange { action: make, reply: ReplyModel::Done }] + none,
            end,
        );
        assert(second =~= seq![
            Exchange { action: ActionModel::Stat { path: root }, reply: ReplyModel::Failed(why) },
        ] + (seq![Exchange { action: make, reply: ReplyModel::Done }] + none));
    }
    assert(plays(step, m.check_user(), second, end));
    // and the base directory before it
    let first = ensuring(base, base_there, stat, why);
    if base_there {
        assert(step(m, ReplyModel::Stat(stat)) == m.check_user());
        lemma_plays_after(
            step,
            m,
            ActionModel::Stat { path: base },
            ReplyModel::Stat(stat),
            second,
            end,
        );
    } else {
        let making = m.at(ProvisionStage::MakingBase);
        let make = ActionModel::MakeDir { path: base, mode: DIRECTORY_MODE };
        assert(step(m, ReplyModel::Failed(why)) == TurnModel::Perform(making, make));
        assert(step(making, ReplyModel::Done) == m.check_user());
        lemma_plays_after(step, making, make, ReplyModel::Done, second, end);
        lemma_plays_after(
            step,
            m,
            ActionModel::Stat { path: base },
            ReplyModel::Failed(why),
            seq![Exchange { action: make, reply: ReplyModel::Done }] + second,
            end,
        );
        assert(first + second =~= seq![
            Exchange { action: ActionModel::Stat { path: base }, reply: ReplyModel::Failed(why) },
        ] + (seq![Exchange { action: make, reply: ReplyModel::Done }] + second));
    }
}

/// Provisioning a workspace that is there creates nothing.
pub proof fn lemma_provisioning_again_creates_nothing(
    home: Seq<char>,
    user: Seq<char>,
    stat: RemoteStat,
    why: Seq<char>,
)
    ensures
        created(provisioning(home, user, true, true, stat, why)) == 0,
{
    let script = provisioning(home, user, true, true, stat, why);
    assert(script.len() == 2);
    let one = script.drop_last();
    assert(one.drop_last() =~= Seq::<Exchange>::empty());
    assert(created(one.drop_last()) == 0);
    assert(created(one) == 0);
}

/// The provisioning of a workspace moves nothing through the buffer.
pub proof fn lemma_fits_buffer(m: ProvisionModel, reply: ReplyModel)
    ensures
        m.next(reply) matches TurnModel::Perform(_, action) ==> fits_buffer(action, CHUNK_SIZE),
{
}

/// Only an examination may fail. A directory that cannot be examined is
/// created; any other failure ends the provisioning at once in failure.
pub proof fn lemma_failure_ends_provisioning(m: ProvisionModel, why: Seq<char>)
    ensures
        m.stage == ProvisionStage::CheckingBase ==> m.next(ReplyModel::Failed(why))
            == TurnModel::Perform(
            m.at(ProvisionStage::MakingBase),
            ActionModel::MakeDir { path: base_directory(m.home), mode: DIRECTORY_MODE },
        ),
        m.stage == ProvisionStage::CheckingUser ==> m.next(ReplyModel::Failed(why))
            == TurnModel::Perform(
            m.at(ProvisionStage::MakingUser),
            ActionModel::MakeDir { path: m.root(), mode: DIRECTORY_MODE },
        ),
        m.stage != ProvisionStage::CheckingBase && m.stage != ProvisionStage::CheckingUser
            ==> m.next(ReplyModel::Failed(why)) is Failed,
{
}

} // verus!
