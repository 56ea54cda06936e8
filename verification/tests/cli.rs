use ligate_cli::cli::{GlobalArgs, DEFAULT_RPC};

fn global(rpc: &str) -> GlobalArgs {
    GlobalArgs { rpc: rpc.to_string(), json: false }
}

#[test]
fn appends_v1_to_default_rpc() {
    let g = global(DEFAULT_RPC);
    assert_eq!(g.rpc_with_v1(), "https://rpc.ligate.io/v1");
}

#[test]
fn appends_v1_to_local_rpc_no_trailing_slash() {
    let g = global("http://127.0.0.1:12346");
    assert_eq!(g.rpc_with_v1(), "http://127.0.0.1:12346/v1");
}

#[test]
fn appends_v1_to_local_rpc_with_trailing_slash() {
    let g = global("http://127.0.0.1:12346/");
    assert_eq!(g.rpc_with_v1(), "http://127.0.0.1:12346/v1");
}

#[test]
fn does_not_double_prefix_when_v1_already_present() {
    let g = global("http://127.0.0.1:12346/v1");
    assert_eq!(g.rpc_with_v1(), "http://127.0.0.1:12346/v1");
}

#[test]
fn strips_trailing_slash_after_v1() {
    let g = global("http://127.0.0.1:12346/v1/");
    assert_eq!(g.rpc_with_v1(), "http://127.0.0.1:12346/v1");
}

#[test]
fn rpc_with_v1_is_idempotent_on_examples() {
    for rpc in ["https://rpc.ligate.io", "http://h:1//", "http://h:1/v1//", "", "/", "/v1x"] {
        let once = global(rpc).rpc_with_v1();
        let twice = global(&once).rpc_with_v1();
        assert_eq!(once, twice);
        assert!(once.ends_with("/v1"));
    }
}

#[test]
fn rpc_with_v1_strips_every_trailing_slash() {
    assert_eq!(global("http://h:1///").rpc_with_v1(), "http://h:1/v1");
    assert_eq!(global("").rpc_with_v1(), "/v1");
    assert_eq!(global("///").rpc_with_v1(), "/v1");
    assert_eq!(global("http://h/v10").rpc_with_v1(), "http://h/v10/v1");
}
