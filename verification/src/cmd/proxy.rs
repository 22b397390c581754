//! Making sure that the credential proxy runs.

use vstd::pervasive::unreached;
use vstd::prelude::*;
use vstd::string::StringExecFns;

use crate::config::Config;
use crate::effect::{goes_on_at, is_run, Call, Kind, Machine, Next, Reply};
use crate::error::TachikomaError;
use crate::text::{decimal, decimal_text, push_text, texts};

verus! {

/// What the machine waits for at the moment.
pub enum ProxyStep {
    /// Whether the proxy already answers.
    Looking,
    /// The path of the program.
    Exe,
    /// The start of the proxy.
    Launching,
    /// The time at which the wait begins.
    Starting,
    /// Whether the proxy answers by now.
    Polling { deadline: u128 },
    /// The time.
    Clock { deadline: u128 },
    /// The end of a sleep.
    Sleeping { deadline: u128 },
}

/// Starts the credential proxy if it does not answer, and gives it two seconds to come up.
pub struct EnsureProxy<'a> {
    pub config: &'a Config,
    pub step: ProxyStep,
}

/// The arguments with which the program becomes the proxy.
pub open spec fn proxy_arguments(config: Config) -> Seq<Seq<char>> {
    seq![
        "proxy"@,
        "start"@,
        "--port"@,
        decimal(config.credential_proxy_port as nat),
        "--bind"@,
        config.credential_proxy_bind@,
    ]
}

fn proxy_args(config: &Config) -> (args: Vec<String>)
    ensures
        texts(args@) == proxy_arguments(*config),
{
    let mut args: Vec<String> = Vec::new();
    assert(texts(args@) =~= seq![]);
    push_text(&mut args, "proxy".to_string());
    push_text(&mut args, "start".to_string());
    push_text(&mut args, "--port".to_string());
    push_text(&mut args, decimal_text(config.credential_proxy_port as u64));
    push_text(&mut args, "--bind".to_string());
    push_text(&mut args, config.credential_proxy_bind.clone());
    assert(texts(args@) =~= proxy_arguments(*config));
    args
}

/// Whether the procedure ends with the given proxy error.
pub open spec fn fails_with<'a>(next: Next<EnsureProxy<'a>, ()>, message: Seq<char>) -> bool {
    next matches Next::Done(Err(TachikomaError::Proxy(m))) && m@ == message
}

/// The question whether the proxy answers, and how the procedure goes on from there.
pub open spec fn looks<'a>(config: &'a Config, step: ProxyStep) -> Next<EnsureProxy<'a>, ()> {
    Next::Ask {
        status: None,
        call: Call::ProxyReachable {
            bind: config.credential_proxy_bind,
            port: config.credential_proxy_port,
        },
        machine: EnsureProxy { config, step },
    }
}

fn look<'a>(config: &'a Config, step: ProxyStep) -> (next: Next<EnsureProxy<'a>, ()>)
    ensures
        next == looks(config, step),
{
    Next::Ask {
        status: None,
        call: Call::ProxyReachable {
            bind: config.credential_proxy_bind.clone(),
            port: config.credential_proxy_port,
        },
        machine: EnsureProxy { config, step },
    }
}

impl<'a> EnsureProxy<'a> {
    /// How the procedure goes on with a call.
    pub open spec fn asking(self, call: Call, step: ProxyStep) -> Next<Self, ()> {
        Next::Ask { status: None, call, machine: EnsureProxy { config: self.config, step } }
    }
}

impl<'a> Machine for EnsureProxy<'a> {
    type Output = ();

    open spec fn awaits(&self) -> Kind {
        match self.step {
            ProxyStep::Looking => Kind::Truth,
            ProxyStep::Exe => Kind::OsText,
            ProxyStep::Launching => Kind::OsUnit,
            ProxyStep::Starting => Kind::Instant,
            ProxyStep::Polling { .. } => Kind::Truth,
            ProxyStep::Clock { .. } => Kind::Instant,
            ProxyStep::Sleeping { .. } => Kind::Slept,
        }
    }

    open spec fn transition(self, reply: Reply, next: Next<Self, ()>) -> bool {
        match self.step {
            ProxyStep::Looking => if reply->Truth_0 {
                next matches Next::Done(Ok(_))
            } else {
                next == self.asking(Call::CurrentExe, ProxyStep::Exe)
            },
            ProxyStep::Exe => match reply->OsText_0 {
                Ok(exe) => {
                    &&& next matches Next::Ask {
                        status: None,
                        call: Call::SpawnDetached { program, args },
                        machine,
                    }
                    &&& program == exe
                    &&& texts(args@) == proxy_arguments(*self.config)
                    &&& machine == (EnsureProxy {
                        config: self.config,
                        step: ProxyStep::Launching,
                    })
                },
                Err(e) => fails_with(next, "Cannot resolve own executable path: "@ + e@),
            },
            ProxyStep::Launching => match reply->OsUnit_0 {
                Ok(_) => next == self.asking(Call::Clock, ProxyStep::Starting),
                Err(e) => fails_with(next, "Failed to spawn credential proxy: "@ + e@),
            },
            ProxyStep::Starting => next == looks(
                self.config,
                ProxyStep::Polling { deadline: (reply->Instant_0 + 2_000_000_000) as u128 },
            ),
            ProxyStep::Polling { deadline } => if reply->Truth_0 {
                next matches Next::Done(Ok(_))
            } else {
                next == self.asking(Call::Clock, ProxyStep::Clock { deadline })
            },
            ProxyStep::Clock { deadline } => if reply->Instant_0 >= deadline {
                next matches Next::Done(Ok(_))
            } else {
                next == self.asking(Call::Sleep(100_000_000), ProxyStep::Sleeping { deadline })
            },
            ProxyStep::Sleeping { deadline } => next == looks(
                self.config,
                ProxyStep::Polling { deadline },
            ),
        }
    }

    fn resume(self, reply: Reply) -> (next: Next<Self, ()>) {
        let EnsureProxy { config, step } = self;
        match (step, reply) {
            (ProxyStep::Looking, Reply::Truth(reachable)) => {
                if reachable {
                    Next::Done(Ok(()))
                } else {
                    Next::Ask {
                        status: None,
                        call: Call::CurrentExe,
                        machine: EnsureProxy { config, step: ProxyStep::Exe },
                    }
                }
            },
            (ProxyStep::Exe, Reply::OsText(exe)) => match exe {
                Ok(program) => {
                    let args = proxy_args(config);
                    Next::Ask {
                        status: None,
                        call: Call::SpawnDetached { program, args },
                        machine: EnsureProxy { config, step: ProxyStep::Launching },
                    }
                },
                Err(e) => {
                    let mut m = "Cannot resolve own executable path: ".to_string();
                    m.append(e.as_str());
                    Next::Done(Err(TachikomaError::Proxy(m)))
                },
            },
            (ProxyStep::Launching, Reply::OsUnit(launched)) => match launched {
                Ok(_) => Next::Ask {
                    status: None,
                    call: Call::Clock,
                    machine: EnsureProxy { config, step: ProxyStep::Starting },
                },
                Err(e) => {
                    let mut m = "Failed to spawn credential proxy: ".to_string();
                    m.append(e.as_str());
                    Next::Done(Err(TachikomaError::Proxy(m)))
                },
            },
            (ProxyStep::Starting, Reply::Instant(start)) => {
                let deadline: u128 = start as u128 + 2_000_000_000;
                look(config, ProxyStep::Polling { deadline })
            },
            (ProxyStep::Polling { deadline }, Reply::Truth(reachable)) => {
                if reachable {
                    Next::Done(Ok(()))
                } else {
                    Next::Ask {
                        status: None,
                        call: Call::Clock,
                        machine: EnsureProxy { config, step: ProxyStep::Clock { deadline } },
                    }
                }
            },
            (ProxyStep::Clock { deadline }, Reply::Instant(now)) => {
                if now as u128 >= deadline {
                    // The proxy may still come up before the machine has booted.
                    Next::Done(Ok(()))
                } else {
                    Next::Ask {
                        status: None,
                        call: Call::Sleep(100_000_000),
                        machine: EnsureProxy { config, step: ProxyStep::Sleeping { deadline } },
                    }
                }
            },
            (ProxyStep::Sleeping { deadline }, _) => look(config, ProxyStep::Polling { deadline }),
            _ => unreached(),
        }
    }
}

/// Starts to make sure that the credential proxy runs.
pub fn ensure_proxy_running<'a>(config: &'a Config) -> (next: Next<EnsureProxy<'a>, ()>)
    ensures
        next == looks(config, ProxyStep::Looking),
{
    look(config, ProxyStep::Looking)
}

/// What holds of every machine that waits in a run.
spec fn on_course<'a>(
    config: &'a Config,
    replies: Seq<Reply>,
    i: int,
    point: Next<EnsureProxy<'a>, ()>,
) -> bool {
    point matches Next::Ask { call, machine, .. } ==> {
        &&& machine.config == config
        &&& machine.awaits() == call.kind()
        &&& call is SpawnDetached <==> i == 2
        &&& i == 0 <==> machine.step is Looking
        &&& i == 1 <==> machine.step is Exe
        &&& i == 2 <==> machine.step is Launching
        &&& i == 3 <==> machine.step is Starting
        &&& i > 0 ==> replies[0] == Reply::Truth(false)
        &&& machine.step matches ProxyStep::Polling { deadline } ==> deadline
            == replies[3]->Instant_0 + 2_000_000_000
        &&& machine.step matches ProxyStep::Clock { deadline } ==> deadline
            == replies[3]->Instant_0 + 2_000_000_000
        &&& machine.step matches ProxyStep::Sleeping { deadline } ==> deadline
            == replies[3]->Instant_0 + 2_000_000_000
    }
}

proof fn lemma_on_course<'a>(
    config: &'a Config,
    replies: Seq<Reply>,
    trail: Seq<Next<EnsureProxy<'a>, ()>>,
    i: int,
)
    requires
        is_run(looks(config, ProxyStep::Looking), replies, trail),
        0 <= i <= replies.len(),
    ensures
        on_course(config, replies, i, trail[i]),
    decreases i,
{
    if i > 0 {
        lemma_on_course(config, replies, trail, i - 1);
        assert(goes_on_at(replies, trail, i - 1));
    }
}

/// A proxy that already answers is left alone: nothing else is done.
pub proof fn law_a_running_proxy_is_left_alone<'a>(
    config: &'a Config,
    replies: Seq<Reply>,
    trail: Seq<Next<EnsureProxy<'a>, ()>>,
)
    requires
        is_run(looks(config, ProxyStep::Looking), replies, trail),
        replies.len() > 0,
        replies[0] == Reply::Truth(true),
    ensures
        replies.len() == 1,
        trail[1] matches Next::Done(Ok(_)),
{
    assert(goes_on_at(replies, trail, 0));
    if replies.len() > 1 {
        assert(goes_on_at(replies, trail, 1));
    }
}

/// At most one proxy is started.
pub proof fn law_one_proxy_at_most_is_started<'a>(
    config: &'a Config,
    replies: Seq<Reply>,
    trail: Seq<Next<EnsureProxy<'a>, ()>>,
    i: int,
    j: int,
)
    requires
        is_run(looks(config, ProxyStep::Looking), replies, trail),
        0 <= i <= replies.len(),
        0 <= j <= replies.len(),
        trail[i] is Ask && trail[i]->call is SpawnDetached,
        trail[j] is Ask && trail[j]->call is SpawnDetached,
    ensures
        i == j,
        replies[0] == Reply::Truth(false),
{
    lemma_on_course(config, replies, trail, i);
    lemma_on_course(config, replies, trail, j);
}

/// Once the proxy is started, nothing can go wrong any more: the procedure ends well as soon as
/// the proxy answers, or when the clock shows two seconds after the start of the wait, and goes
/// on otherwise.
pub proof fn law_a_started_proxy_is_no_failure<'a>(
    config: &'a Config,
    replies: Seq<Reply>,
    trail: Seq<Next<EnsureProxy<'a>, ()>>,
    i: int,
)
    requires
        is_run(looks(config, ProxyStep::Looking), replies, trail),
        3 < i < replies.len(),
    ensures
        replies[2] matches Reply::OsUnit(Ok(_)),
        (trail[i + 1] matches Next::Done(Ok(_))) <==> (replies[i] == Reply::Truth(true) || (
        replies[i] matches Reply::Instant(now) && now >= replies[3]->Instant_0 + 2_000_000_000)),
        !(trail[i + 1] matches Next::Done(Err(_))),
{
    lemma_on_course(config, replies, trail, 2);
    lemma_on_course(config, replies, trail, 3);
    lemma_on_course(config, replies, trail, i);
    assert(goes_on_at(replies, trail, 2));
    assert(goes_on_at(replies, trail, 3));
    assert(goes_on_at(replies, trail, i));
}

} // verus!
