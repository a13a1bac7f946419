//! What the server is started with: the port taken from the command line
//! and the agent card it publishes.

use vstd::prelude::*;

use crate::a2a::types::{
    AgentCapabilities, AgentCard, AgentInterface, AgentProvider, AgentSkill,
};
use crate::text::{decimal, has_prefix, owned, parse_u64, parse_u64_exec, push_decimal, push_str, sviews};

verus! {

/// The port used when none is given.
pub const DEFAULT_PORT: u16 = 41242;

/// `str::parse::<u16>`: a `u64` text whose value fits in a `u16`.
pub open spec fn parse_u16(s: Seq<char>) -> Option<u16> {
    match parse_u64(s) {
        Some(n) => if n <= 65535 {
            Some(n as u16)
        } else {
            None
        },
        None => None,
    }
}

/// The port an argument sets: `--port=N` with `N` a valid port number.
pub open spec fn port_arg(a: Seq<char>) -> Option<u16> {
    if has_prefix(a, "--port="@) {
        parse_u16(a.skip(7))
    } else {
        None
    }
}

/// The port after reading `args` in order: the last valid `--port=N`, or
/// the default.
pub open spec fn port_after(args: Seq<Seq<char>>) -> u16
    decreases args.len(),
{
    if args.len() == 0 {
        DEFAULT_PORT
    } else {
        match port_arg(args.last()) {
            Some(p) => p,
            None => port_after(args.drop_last()),
        }
    }
}

/// The port given on the command line (the arguments after the program
/// name): the last valid `--port=N`, or the default; other arguments,
/// and `--port` with its value apart, are ignored.
pub fn port_from_args(args: &Vec<String>) -> (p: u16)
    ensures
        p == port_after(sviews(args@)),
{
    let mut port: u16 = DEFAULT_PORT;
    let mut i: usize = 0;
    while i < args.len()
        invariant
            i <= args.len(),
            port == port_after(sviews(args@).take(i as int)),
        decreases args.len() - i,
    {
        proof {
            assert(sviews(args@).take(i + 1).drop_last() =~= sviews(args@).take(i as int));
            assert(sviews(args@).take(i + 1).last() == args@[i as int]@);
        }
        let a = crate::text::chars_of(args[i].as_str());
        let prefix = crate::text::chars_of("--port=");
        proof {
            reveal_strlit("--port=");
        }
        if crate::text::starts_with(&a, &prefix) {
            let rest = crate::text::string_from_chars(&crate::text::slice_chars(&a, 7, a.len()));
            proof {
                assert(rest@ =~= args@[i as int]@.skip(7));
            }
            match parse_u64_exec(rest.as_str()) {
                Some(n) => {
                    if n <= 65535 {
                        port = n as u16;
                    }
                },
                None => {},
            }
        }
        i += 1;
    }
    assert(sviews(args@).take(args@.len() as int) =~= sviews(args@));
    port
}

/// The server's base URL for a port.
pub open spec fn base_url(port: u16) -> Seq<char> {
    "http://127.0.0.1:"@ + decimal(port as nat)
}

/// The card the server publishes on `port`.
pub fn agent_card(port: u16) -> (c: AgentCard)
    ensures
        c.name@ == "q-body"@,
        c.description@ == "Q宝宝的自进化身体 — 一个正在学习、实验、进化的 AI Agent (Rust)"@,
        c.url matches Some(u) && u@ == base_url(port),
        c.provider matches Some(p) && p.organization@ == "Q宝宝实验室"@ && p.url@
            == "https://github.com/q-baby"@,
        c.version@ == "0.1.0"@,
        c.capabilities matches Some(k) && !k.streaming && !k.push_notifications,
        sviews(c.default_input_modes@) == seq!["text"@],
        sviews(c.default_output_modes@) == seq!["text"@],
        c.skills@.len() == 1,
        c.skills@[0].id@ == "q-body-core"@,
        c.skills@[0].name@ == "q-body Core"@,
        c.skills@[0].description@ == "核心 A2A 通信能力，用于验证 agent 间协作链路"@,
        sviews(c.skills@[0].tags@) == seq!["a2a"@, "core"@, "evolution"@],
        sviews(c.skills@[0].examples@) == seq!["hello"@, "what can you do"@, "你的能力"@],
        sviews(c.skills@[0].input_modes@) == seq!["text"@],
        sviews(c.skills@[0].output_modes@) == seq!["text"@],
        c.supported_interfaces@.len() == 1,
        c.supported_interfaces@[0].protocol_binding@ == "JSONRPC"@,
        c.supported_interfaces@[0].protocol_version@ == "1.0"@,
        c.supported_interfaces@[0].url@ == base_url(port) + "/a2a/jsonrpc"@,
{
    let mut url = owned("http://127.0.0.1:");
    push_decimal(&mut url, port as u64);
    let mut rpc = owned("http://127.0.0.1:");
    push_decimal(&mut rpc, port as u64);
    push_str(&mut rpc, "/a2a/jsonrpc");
    let c = AgentCard {
        name: owned("q-body"),
        description: owned("Q宝宝的自进化身体 — 一个正在学习、实验、进化的 AI Agent (Rust)"),
        url: Some(url),
        provider: Some(
            AgentProvider { organization: owned("Q宝宝实验室"), url: owned("https://github.com/q-baby") },
        ),
        version: owned("0.1.0"),
        capabilities: Some(AgentCapabilities { streaming: false, push_notifications: false }),
        default_input_modes: vec![owned("text")],
        default_output_modes: vec![owned("text")],
        skills: vec![
            AgentSkill {
                id: owned("q-body-core"),
                name: owned("q-body Core"),
                description: owned("核心 A2A 通信能力，用于验证 agent 间协作链路"),
                tags: vec![owned("a2a"), owned("core"), owned("evolution")],
                examples: vec![owned("hello"), owned("what can you do"), owned("你的能力")],
                input_modes: vec![owned("text")],
                output_modes: vec![owned("text")],
            },
        ],
        supported_interfaces: vec![
            AgentInterface {
                protocol_binding: owned("JSONRPC"),
                protocol_version: owned("1.0"),
                url: rpc,
            },
        ],
    };
    proof {
        assert(sviews(c.default_input_modes@) =~= seq!["text"@]);
        assert(sviews(c.default_output_modes@) =~= seq!["text"@]);
        assert(sviews(c.skills@[0].tags@) =~= seq!["a2a"@, "core"@, "evolution"@]);
        assert(sviews(c.skills@[0].examples@) =~= seq!["hello"@, "what can you do"@, "你的能力"@]);
        assert(sviews(c.skills@[0].input_modes@) =~= seq!["text"@]);
        assert(sviews(c.skills@[0].output_modes@) =~= seq!["text"@]);
    }
    c
}

} // verus!
