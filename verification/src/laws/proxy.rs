//! The credential proxy, call by call.

use vstd::prelude::*;

use crate::cmd::proxy::{looks, EnsureProxy, ProxyStep};
use crate::config::Config;
use crate::effect::{goes_on_at, is_run, Call, Next, Reply};
use crate::error::TachikomaError;
use crate::text::{decimal, texts};

verus! {

/// The question whether the proxy of the settings answers.
pub open spec fn proxy_question(config: Config) -> Call {
    Call::ProxyReachable {
        bind: config.credential_proxy_bind,
        port: config.credential_proxy_port,
    }
}

/// What is due when a reply comes.
pub open spec fn is_due<'a>(
    config: Config,
    replies: Seq<Reply>,
    trail: Seq<Next<EnsureProxy<'a>, ()>>,
    i: int,
) -> bool {
    let next = trail[i + 1];
    match trail[i]->call {
        Call::ProxyReachable { .. } => {
            &&& trail[i]->call == proxy_question(config)
            &&& replies[i] is Truth
            &&& if replies[i]->Truth_0 {
                next matches Next::Done(Ok(_))
            } else if i == 0 {
                next is Ask && next->call == Call::CurrentExe
            } else {
                next is Ask && next->call == Call::Clock
            }
        },
        Call::CurrentExe => i == 1 && match replies[i] {
            Reply::OsText(Ok(exe)) => {
                &&& next is Ask
                &&& next->call matches Call::SpawnDetached { program, args }
                &&& program == exe
                &&& args@.len() == 6
                &&& args@[0]@ == "proxy"@
                &&& args@[1]@ == "start"@
                &&& args@[2]@ == "--port"@
                &&& args@[3]@ == decimal(config.credential_proxy_port as nat)
                &&& args@[4]@ == "--bind"@
                &&& args@[5]@ == config.credential_proxy_bind@
            },
            Reply::OsText(Err(e)) => next matches Next::Done(Err(TachikomaError::Proxy(m))) && m@
                == "Cannot resolve own executable path: "@ + e@,
            _ => false,
        },
        Call::SpawnDetached { .. } => i == 2 && match replies[i] {
            Reply::OsUnit(Ok(_)) => next is Ask && next->call == Call::Clock,
            Reply::OsUnit(Err(e)) => next matches Next::Done(Err(TachikomaError::Proxy(m))) && m@
                == "Failed to spawn credential proxy: "@ + e@,
            _ => false,
        },
        Call::Clock => {
            &&& i >= 3
            &&& replies[i] is Instant
            &&& if i == 3 {
                next is Ask && next->call == proxy_question(config)
            } else if replies[i]->Instant_0 - replies[3]->Instant_0 >= 2_000_000_000 {
                next matches Next::Done(Ok(_))
            } else {
                next is Ask && next->call == Call::Sleep(100_000_000)
            }
        },
        Call::Sleep(_) => next is Ask && next->call == proxy_question(config),
        _ => false,
    }
}

spec fn on_course<'a>(
    config: &'a Config,
    replies: Seq<Reply>,
    trail: Seq<Next<EnsureProxy<'a>, ()>>,
    i: int,
) -> bool {
    trail[i] matches Next::Ask { status, call, machine } ==> {
        let due = replies[3]->Instant_0 + 2_000_000_000;
        &&& status is None
        &&& machine.config == config
        &&& i > 3 ==> replies[3] is Instant
        &&& match machine.step {
            ProxyStep::Looking => i == 0 && call == proxy_question(*config),
            ProxyStep::Exe => i == 1 && call == Call::CurrentExe,
            ProxyStep::Launching => i == 2 && call is SpawnDetached,
            ProxyStep::Starting => i == 3 && call == Call::Clock,
            ProxyStep::Polling { deadline } => i > 3 && call == proxy_question(*config) && deadline
                == due,
            ProxyStep::Clock { deadline } => i > 3 && call == Call::Clock && deadline == due,
            ProxyStep::Sleeping { deadline } => i > 3 && call is Sleep && deadline == due,
        }
    }
}

proof fn lemma_on_course<'a>(
    config: &'a Config,
    replies: Seq<Reply>,
    trail: Seq<Next<EnsureProxy<'a>, ()>>,
    i: int,
)
    requires
        is_run(looks(config, ProxyStep::Looking), replies, trail),
        0 <= i <= replies.len(),
    ensures
        on_course(config, replies, trail, i),
    decreases i,
{
    if i > 0 {
        lemma_on_course(config, replies, trail, i - 1);
        assert(goes_on_at(replies, trail, i - 1));
    }
}

/// The proxy of the settings is looked for first, and started only if it does not answer: the
/// program itself, as `proxy start` with the port and the address of the settings. After that it is
/// looked for every tenth of a second, until it answers or two seconds have passed.
pub proof fn law_the_proxy_is_seen_to<'a>(
    config: &'a Config,
    replies: Seq<Reply>,
    trail: Seq<Next<EnsureProxy<'a>, ()>>,
    i: int,
)
    requires
        is_run(looks(config, ProxyStep::Looking), replies, trail),
        0 <= i < replies.len(),
    ensures
        trail[0] is Ask && trail[0]->call == proxy_question(*config),
        trail[i] is Ask && trail[i]->status is None,
        is_due(*config, replies, trail, i),
{
    lemma_on_course(config, replies, trail, 0);
    lemma_on_course(config, replies, trail, i);
    assert(goes_on_at(replies, trail, i));
    lemma_on_course(config, replies, trail, i + 1);
    let next = trail[i + 1];
    if next is Ask && next->call is SpawnDetached {
        let args = next->call->args@;
        assert(texts(args).len() == args.len());
        assert(texts(args)[0] == args[0]@);
        assert(texts(args)[1] == args[1]@);
        assert(texts(args)[2] == args[2]@);
        assert(texts(args)[3] == args[3]@);
        assert(texts(args)[4] == args[4]@);
        assert(texts(args)[5] == args[5]@);
    }
}

} // verus!
