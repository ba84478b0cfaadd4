//! Sessions: the connection settings are read, a connection to the host is
//! opened and authenticated, and the home directory on the host is asked
//! for.

use crate::failure::Fault;
use crate::protocol::{
    break_down, breakdown, fits_buffer, lemma_plays_after, plays, Action, ActionModel, Exchange,
    Outcome, OutcomeModel, Reply, ReplyModel, Turn, TurnModel,
};
use crate::text::{catenate, signed_decimal, signed_decimal_string, trim, trimmed};
use crate::CHUNK_SIZE;
use vstd::prelude::*;
use vstd::string::*;

verus! {

/// Where the opening of a session stands: the action that it waits for.
#[derive(Clone, Copy, Debug, PartialEq, Eq, Structural)]
pub enum SessionStage {
    /// The settings file is being loaded.
    LoadingEnvironment,
    /// The address of the host is being read.
    LoadingHost,
    /// The user name is being read.
    LoadingUsername,
    /// The password is being read.
    LoadingPassword,
    /// The network connection is being opened.
    Connecting,
    /// The session is being set up.
    CreatingSession,
    /// The handshake is being performed.
    Handshaking,
    /// The credentials are being presented.
    Authenticating,
    /// The session is being asked whether it is authenticated.
    Confirming,
    /// The command channel is being opened.
    OpeningChannel,
    /// The command that prints the home directory is being started.
    Executing,
    /// Its output is being read.
    ReadingOutput,
    /// The channel is being closed.
    ClosingChannel,
    /// The exit status of the command is being fetched.
    FetchingStatus,
}

/// The key of the setting that holds the address of the host.
pub open spec fn host_key() -> Seq<char> {
    "VITE_PI_IP"@
}

/// The key of the setting that holds the user name.
pub open spec fn username_key() -> Seq<char> {
    "VITE_PI_USERNAME"@
}

/// The key of the setting that holds the password.
pub open spec fn password_key() -> Seq<char> {
    "VITE_PI_PASSWORD"@
}

/// The address at which the host `host` takes connections.
pub open spec fn address(host: Seq<char>) -> Seq<char> {
    host + ":22"@
}

/// The command that prints the home directory.
pub open spec fn home_command() -> Seq<char> {
    "echo $HOME"@
}

/// The opening of a session.
#[derive(Debug)]
pub struct Session {
    stage: SessionStage,
    host: String,
    username: String,
    password: String,
    /// What the command has printed.
    output: String,
}

/// A [`Session`] as a mathematical value.
pub struct SessionModel {
    pub stage: SessionStage,
    pub host: Seq<char>,
    pub username: Seq<char>,
    pub password: Seq<char>,
    pub output: Seq<char>,
}

impl View for Session {
    type V = SessionModel;

    closed spec fn view(&self) -> SessionModel {
        SessionModel {
            stage: self.stage,
            host: self.host@,
            username: self.username@,
            password: self.password@,
            output: self.output@,
        }
    }
}

impl SessionModel {
    /// The first turn of the opening of a session.
    pub open spec fn start() -> TurnModel<SessionModel> {
        TurnModel::Perform(
            SessionModel {
                stage: SessionStage::LoadingEnvironment,
                host: Seq::empty(),
                username: Seq::empty(),
                password: Seq::empty(),
                output: Seq::empty(),
            },
            ActionModel::LoadEnvironment,
        )
    }

    /// The opening at `stage`, all else unchanged.
    pub open spec fn at(self, stage: SessionStage) -> SessionModel {
        SessionModel { stage, ..self }
    }

    /// The turn that waits at `stage` with `action`.
    pub open spec fn go(self, stage: SessionStage, action: ActionModel) -> TurnModel<
        SessionModel,
    > {
        TurnModel::Perform(self.at(stage), action)
    }

    /// The turn that the opening takes on `reply`. It ends in success with
    /// the home directory on the host: what the command printed, without
    /// the white space around it.
    pub open spec fn next(self, reply: ReplyModel) -> TurnModel<SessionModel> {
        match self.stage {
            SessionStage::LoadingEnvironment => self.go(
                SessionStage::LoadingHost,
                ActionModel::LoadSetting { key: host_key() },
            ),
            SessionStage::LoadingHost => match reply {
                ReplyModel::Text(host) => SessionModel { host, ..self }.go(
                    SessionStage::LoadingUsername,
                    ActionModel::LoadSetting { key: username_key() },
                ),
                _ => TurnModel::Failed(breakdown(Fault::Setting, host_key(), reply)),
            },
            SessionStage::LoadingUsername => match reply {
                ReplyModel::Text(username) => SessionModel { username, ..self }.go(
                    SessionStage::LoadingPassword,
                    ActionModel::LoadSetting { key: password_key() },
                ),
                _ => TurnModel::Failed(breakdown(Fault::Setting, username_key(), reply)),
            },
            SessionStage::LoadingPassword => match reply {
                ReplyModel::Text(password) => SessionModel { password, ..self }.go(
                    SessionStage::Connecting,
                    ActionModel::Connect { address: address(self.host) },
                ),
                _ => TurnModel::Failed(breakdown(Fault::Setting, password_key(), reply)),
            },
            SessionStage::Connecting => match reply {
                ReplyModel::Done => self.go(
                    SessionStage::CreatingSession,
                    ActionModel::CreateSession,
                ),
                _ => TurnModel::Failed(breakdown(Fault::Connect, address(self.host), reply)),
            },
            SessionStage::CreatingSession => match reply {
                ReplyModel::Done => self.go(SessionStage::Handshaking, ActionModel::Handshake),
                _ => TurnModel::Failed(breakdown(Fault::CreateSession, Seq::empty(), reply)),
            },
            SessionStage::Handshaking => match reply {
                ReplyModel::Done => self.go(
                    SessionStage::Authenticating,
                    ActionModel::Authenticate {
                        username: self.username,
                        password: self.password,
                    },
                ),
                _ => TurnModel::Failed(breakdown(Fault::Handshake, Seq::empty(), reply)),
            },
            SessionStage::Authenticating => match reply {
                ReplyModel::Done => self.go(
                    SessionStage::Confirming,
                    ActionModel::CheckAuthenticated,
                ),
                _ => TurnModel::Failed(breakdown(Fault::Authenticate, Seq::empty(), reply)),
            },
            SessionStage::Confirming => match reply {
                ReplyModel::Flag(true) => self.go(
                    SessionStage::OpeningChannel,
                    ActionModel::OpenChannel,
                ),
                _ => TurnModel::Failed(
                    Fault::NotAuthenticated.failure(Seq::empty(), Seq::empty()),
                ),
            },
            SessionStage::OpeningChannel => match reply {
                ReplyModel::Done => self.go(
                    SessionStage::Executing,
                    ActionModel::Execute { command: home_command() },
                ),
                _ => TurnModel::Failed(breakdown(Fault::OpenChannel, Seq::empty(), reply)),
            },
            SessionStage::Executing => match reply {
                ReplyModel::Done => self.go(SessionStage::ReadingOutput, ActionModel::ReadOutput),
                _ => TurnModel::Failed(breakdown(Fault::Execute, Seq::empty(), reply)),
            },
            SessionStage::ReadingOutput => match reply {
                ReplyModel::Text(output) => SessionModel { output, ..self }.go(
                    SessionStage::ClosingChannel,
                    ActionModel::CloseChannel,
                ),
                _ => TurnModel::Failed(breakdown(Fault::ReadOutput, Seq::empty(), reply)),
            },
            SessionStage::ClosingChannel => match reply {
                ReplyModel::Done => self.go(SessionStage::FetchingStatus, ActionModel::ExitStatus),
                _ => TurnModel::Failed(breakdown(Fault::CloseChannel, Seq::empty(), reply)),
            },
            SessionStage::FetchingStatus => match reply {
                ReplyModel::Code(status) => if status == 0 {
                    TurnModel::Finished(OutcomeModel::Content(trimmed(self.output)))
                } else {
                    TurnModel::Failed(
                        Fault::CommandFailed.failure(Seq::empty(), signed_decimal(status as int)),
                    )
                },
                _ => TurnModel::Failed(breakdown(Fault::ExitStatus, Seq::empty(), reply)),
            },
        }
    }
}

impl Session {
    /// Starts to open a session.
    pub fn start() -> (t: Turn<Session>)
        ensures
            t@ == SessionModel::start(),
    {
        Turn::Perform(
            Session {
                stage: SessionStage::LoadingEnvironment,
                host: String::new(),
                username: String::new(),
                password: String::new(),
                output: String::new(),
            },
            Action::LoadEnvironment,
        )
    }

    /// Computes [`SessionModel::go`].
    fn go(self, stage: SessionStage, action: Action) -> (t: Turn<Session>)
        ensures
            t@ == self@.go(stage, action@),
    {
        let mut m = self;
        m.stage = stage;
        Turn::Perform(m, action)
    }

    /// Takes the reply to the action that the opening waits for, and gives
    /// the turn that follows.
    pub fn step(self, reply: Reply) -> (t: Turn<Session>)
        ensures
            t@ == self@.next(reply@),
    {
        proof {
            reveal_strlit("");
            assert(""@ =~= Seq::<char>::empty());
        }
        match self.stage {
            SessionStage::LoadingEnvironment => self.go(
                SessionStage::LoadingHost,
                Action::LoadSetting { key: String::from_str("VITE_PI_IP") },
            ),
            SessionStage::LoadingHost => match reply {
                Reply::Text(host) => {
                    let mut m = self;
                    m.host = host;
                    m.go(
                        SessionStage::LoadingUsername,
                        Action::LoadSetting { key: String::from_str("VITE_PI_USERNAME") },
                    )
                },
                _ => Turn::Failed(break_down(Fault::Setting, "VITE_PI_IP", &reply)),
            },
            SessionStage::LoadingUsername => match reply {
                Reply::Text(username) => {
                    let mut m = self;
                    m.username = username;
                    m.go(
                        SessionStage::LoadingPassword,
                        Action::LoadSetting { key: String::from_str("VITE_PI_PASSWORD") },
                    )
                },
                _ => Turn::Failed(break_down(Fault::Setting, "VITE_PI_USERNAME", &reply)),
            },
            SessionStage::LoadingPassword => match reply {
                Reply::Text(password) => {
                    let mut m = self;
                    m.password = password;
                    let address = catenate(m.host.as_str(), ":22");
                    m.go(SessionStage::Connecting, Action::Connect { address })
                },
                _ => Turn::Failed(break_down(Fault::Setting, "VITE_PI_PASSWORD", &reply)),
            },
            SessionStage::Connecting => match reply {
                Reply::Done => self.go(SessionStage::CreatingSession, Action::CreateSession),
                _ => {
                    let address = catenate(self.host.as_str(), ":22");
                    Turn::Failed(break_down(Fault::Connect, address.as_str(), &reply))
                },
            },
            SessionStage::CreatingSession => match reply {
                Reply::Done => self.go(SessionStage::Handshaking, Action::Handshake),
                _ => Turn::Failed(break_down(Fault::CreateSession, "", &reply)),
            },
            SessionStage::Handshaking => match reply {
                Reply::Done => {
                    let username = self.username.clone();
                    let password = self.password.clone();
                    self.go(
                        SessionStage::Authenticating,
                        Action::Authenticate { username, password },
                    )
                },
                _ => Turn::Failed(break_down(Fault::Handshake, "", &reply)),
            },
            SessionStage::Authenticating => match reply {
                Reply::Done => self.go(SessionStage::Confirming, Action::CheckAuthenticated),
                _ => Turn::Failed(break_down(Fault::Authenticate, "", &reply)),
            },
            SessionStage::Confirming => match reply {
                Reply::Flag(true) => self.go(SessionStage::OpeningChannel, Action::OpenChannel),
                _ => Turn::Failed(Fault::NotAuthenticated.fail("", "")),
            },
            SessionStage::OpeningChannel => match reply {
                Reply::Done => self.go(
                    SessionStage::Executing,
                    Action::Execute { command: String::from_str("echo $HOME") },
                ),
                _ => Turn::Failed(break_down(Fault::OpenChannel, "", &reply)),
            },
            SessionStage::Executing => match reply {
                Reply::Done => self.go(SessionStage::ReadingOutput, Action::ReadOutput),
                _ => Turn::Failed(break_down(Fault::Execute, "", &reply)),
            },
            SessionStage::ReadingOutput => match reply {
                Reply::Text(output) => {
                    let mut m = self;
                    m.output = output;
                    m.go(SessionStage::ClosingChannel, Action::CloseChannel)
                },
                _ => Turn::Failed(break_down(Fault::ReadOutput, "", &reply)),
            },
            SessionStage::ClosingChannel => match reply {
                Reply::Done => self.go(SessionStage::FetchingStatus, Action::ExitStatus),
                _ => Turn::Failed(break_down(Fault::CloseChannel, "", &reply)),
            },
            SessionStage::FetchingStatus => match reply {
                Reply::Code(status) => {
                    if status == 0 {
                        Turn::Finished(Outcome::Content(trim(self.output.as_str())))
                    } else {
                        let shown = signed_decimal_string(status);
                        Turn::Failed(Fault::CommandFailed.fail("", shown.as_str()))
                    }
                },
                _ => Turn::Failed(break_down(Fault::ExitStatus, "", &reply)),
            },
        }
    }
}

/// The exchanges of the opening of a session with an environment that
/// holds the three settings and a host that lets the user in and prints
/// `output` for its home directory.
pub open spec fn logging_in(
    host: Seq<char>,
    username: Seq<char>,
    password: Seq<char>,
    output: Seq<char>,
) -> Seq<Exchange> {
    seq![
        Exchange { action: ActionModel::LoadEnvironment, reply: ReplyModel::Done },
        Exchange {
            action: ActionModel::LoadSetting { key: host_key() },
            reply: ReplyModel::Text(host),
        },
        Exchange {
            action: ActionModel::LoadSetting { key: username_key() },
            reply: ReplyModel::Text(username),
        },
        Exchange {
            action: ActionModel::LoadSetting { key: password_key() },
            reply: ReplyModel::Text(password),
        },
        Exchange { action: ActionModel::Connect { address: address(host) }, reply: ReplyModel::Done },
        Exchange { action: ActionModel::CreateSession, reply: ReplyModel::Done },
        Exchange { action: ActionModel::Handshake, reply: ReplyModel::Done },
        Exchange {
            action: ActionModel::Authenticate { username, password },
            reply: ReplyModel::Done,
        },
        Exchange { action: ActionModel::CheckAuthenticated, reply: ReplyModel::Flag(true) },
        Exchange { action: ActionModel::OpenChannel, reply: ReplyModel::Done },
        Exchange {
            action: ActionModel::Execute { command: home_command() },
            reply: ReplyModel::Done,
        },
        Exchange { action: ActionModel::ReadOutput, reply: ReplyModel::Text(output) },
        Exchange { action: ActionModel::CloseChannel, reply: ReplyModel::Done },
        Exchange { action: ActionModel::ExitStatus, reply: ReplyModel::Code(0) },
    ]
}

impl SessionModel {
    /// The function by which the opening of a session steps.
    pub open spec fn stepper() -> spec_fn(SessionModel, ReplyModel) -> TurnModel<SessionModel> {
        |m: SessionModel, reply: ReplyModel| m.next(reply)
    }
}

/// The tail of `script` from the index `from` on is its exchange at `from`
/// and then the tail from the next index on.
proof fn lemma_tail(script: Seq<Exchange>, from: int)
    requires
        0 <= from < script.len(),
    ensures
        script.subrange(from, script.len() as int) == seq![script[from]] + script.subrange(
            from + 1,
            script.len() as int,
        ),
{
    assert(script.subrange(from, script.len() as int) =~= seq![script[from]] + script.subrange(
        from + 1,
        script.len() as int,
    ));
}

/// A session opens as [`logging_in`] says: with the settings at hand and a
/// host that lets the user in, the opening performs these exchanges and
/// succeeds with what the host printed, trimmed.
pub proof fn lemma_session_plays(
    host: Seq<char>,
    username: Seq<char>,
    password: Seq<char>,
    output: Seq<char>,
)
    ensures
        plays(
            SessionModel::stepper(),
            SessionModel::start(),
            logging_in(host, username, password, output),
            TurnModel::Finished(OutcomeModel::Content(trimmed(output))),
        ),
{
    let step = SessionModel::stepper();
    let script = logging_in(host, username, password, output);
    let end = TurnModel::<SessionModel>::Finished(OutcomeModel::Content(trimmed(output)));
    let n = script.len() as int;
    let m0 = SessionModel {
        stage: SessionStage::LoadingEnvironment,
        host: Seq::empty(),
        username: Seq::empty(),
        password: Seq::empty(),
        output: Seq::empty(),
    };
    let m1 = m0.at(SessionStage::LoadingHost);
    let m2 = SessionModel { host, ..m1 }.at(SessionStage::LoadingUsername);
    let m3 = SessionModel { username, ..m2 }.at(SessionStage::LoadingPassword);
    let m4 = SessionModel { password, ..m3 }.at(SessionStage::Connecting);
    let m5 = m4.at(SessionStage::CreatingSession);
    let m6 = m4.at(SessionStage::Handshaking);
    let m7 = m4.at(SessionStage::Authenticating);
    let m8 = m4.at(SessionStage::Confirming);
    let m9 = m4.at(SessionStage::OpeningChannel);
    let m10 = m4.at(SessionStage::Executing);
    let m11 = m4.at(SessionStage::ReadingOutput);
    let m12 = SessionModel { output, ..m11 }.at(SessionStage::ClosingChannel);
    let m13 = m12.at(SessionStage::FetchingStatus);
    assert(script.subrange(14, n) =~= Seq::<Exchange>::empty());
    assert(plays(step, end, script.subrange(14, n), end));
    assert(step(m13, script[13].reply) == end);
    lemma_plays_after(step, m13, script[13].action, script[13].reply, script.subrange(14, n), end);
    lemma_tail(script, 13);
    assert(step(m12, script[12].reply) == TurnModel::Perform(m13, script[13].action));
    lemma_plays_after(step, m12, script[12].action, script[12].reply, script.subrange(13, n), end);
    lemma_tail(script, 12);
    assert(step(m11, script[11].reply) == TurnModel::Perform(m12, script[12].action));
    lemma_plays_after(step, m11, script[11].action, script[11].reply, script.subrange(12, n), end);
    lemma_tail(script, 11);
    assert(step(m10, script[10].reply) == TurnModel::Perform(m11, script[11].action));
    lemma_plays_after(step, m10, script[10].action, script[10].reply, script.subrange(11, n), end);
    lemma_tail(script, 10);
    assert(step(m9, script[9].reply) == TurnModel::Perform(m10, script[10].action));
    lemma_plays_after(step, m9, script[9].action, script[9].reply, script.subrange(10, n), end);
    lemma_tail(script, 9);
    assert(step(m8, script[8].reply) == TurnModel::Perform(m9, script[9].action));
    lemma_plays_after(step, m8, script[8].action, script[8].reply, script.subrange(9, n), end);
    lemma_tail(script, 8);
    assert(step(m7, script[7].reply) == TurnModel::Perform(m8, script[8].action));
    lemma_plays_after(step, m7, script[7].action, script[7].reply, script.subrange(8, n), end);
    lemma_tail(script, 7);
    assert(step(m6, script[6].reply) == TurnModel::Perform(m7, script[7].action));
    lemma_plays_after(step, m6, script[6].action, script[6].reply, script.subrange(7, n), end);
    lemma_tail(script, 6);
    assert(step(m5, script[5].reply) == TurnModel::Perform(m6, script[6].action));
    lemma_plays_after(step, m5, script[5].action, script[5].reply, script.subrange(6, n), end);
    lemma_tail(script, 5);
    assert(step(m4, script[4].reply) == TurnModel::Perform(m5, script[5].action));
    lemma_plays_after(step, m4, script[4].action, script[4].reply, script.subrange(5, n), end);
    lemma_tail(script, 4);
    assert(step(m3, script[3].reply) == TurnModel::Perform(m4, script[4].action));
    lemma_plays_after(step, m3, script[3].action, script[3].reply, script.subrange(4, n), end);
    lemma_tail(script, 3);
    assert(step(m2, script[2].reply) == TurnModel::Perform(m3, script[3].action));
    lemma_plays_after(step, m2, script[2].action, script[2].reply, script.subrange(3, n), end);
    lemma_tail(script, 2);
    assert(step(m1, script[1].reply) == TurnModel::Perform(m2, script[2].action));
    lemma_plays_after(step, m1, script[1].action, script[1].reply, script.subrange(2, n), end);
    lemma_tail(script, 1);
    assert(step(m0, script[0].reply) == TurnModel::Perform(m1, script[1].action));
    lemma_plays_after(step, m0, script[0].action, script[0].reply, script.subrange(1, n), end);
    lemma_tail(script, 0);
    assert(script.subrange(0, n) =~= script);
}

/// The opening of a session moves nothing through the buffer.
pub proof fn lemma_fits_buffer(m: SessionModel, reply: ReplyModel)
    ensures
        m.next(reply) matches TurnModel::Perform(_, action) ==> fits_buffer(action, CHUNK_SIZE),
{
}

/// The opening of a session stops at the first failure: once the settings
/// file has been looked for, any failure ends the opening at once in
/// failure. There is no second try.
pub proof fn lemma_failure_ends_opening(m: SessionModel, why: Seq<char>)
    ensures
        m.stage != SessionStage::LoadingEnvironment ==> m.next(ReplyModel::Failed(why)) is Failed,
{
}

} // verus!
