use rusty_pine::analyze::{Server, ServerParams, TableName};
use rusty_pine::cache::{CacheKey, Cacheable, SharedCacheKey};
use rusty_pine::cli::{parse_port, split_host, try_split_host, MySqlConnectionArgs, ProgramArgs};
use rusty_pine::context::{Context, ContextName};
use rusty_pine::engine::{Position, Source, Sourced};
use rusty_pine::lsp::{edit_outcome_message, output_line, EditOutcome, LogLevel};

fn params(port: u16) -> ServerParams {
    ServerParams {
        hostname: "db.example.com".to_string(),
        port,
        user: "me".to_string(),
        default_database: TableName("shop".to_string()),
    }
}

#[test]
fn cache_paths() {
    assert_eq!("server-db.example.com-3306-me.json", params(3306).as_path());
    assert_eq!("server", Server::type_id());

    let server = Server {
        params: params(33),
        databases: Vec::new(),
    };
    assert_eq!(33, server.cache_key().port);

    let name = ContextName::from("work".to_string());
    assert_eq!("context_work.json", name.as_path());
    assert_eq!("current_context", ContextName::type_id());
    assert_eq!("current_context", name.cache_key().as_path());
    assert_eq!("context", Context::type_id());

    let context = Context {
        name: ContextName::from("home".to_string()),
        server_params: params(3306),
    };
    assert_eq!("home", context.cache_key().as_str());
    assert_eq!("x", SharedCacheKey("x".to_string()).as_path());
}

#[test]
fn context_names_convert() {
    let name = ContextName::from("dev".to_string());
    assert_eq!("dev", name.as_str());
    let text: String = name.into();
    assert_eq!("dev", text);
}

#[test]
fn servers_are_shown_without_the_default_port() {
    assert_eq!("me@db.example.com", params(3306).to_text());
    assert_eq!("me@db.example.com:3307", params(3307).to_text());
}

#[test]
fn hosts_and_ports() {
    assert_eq!(("example.com".to_string(), 3306), split_host("example.com".to_string()));
    assert_eq!(("example.com".to_string(), 33), split_host("example.com:33".to_string()));
    assert_eq!(Some(("h".to_string(), 65535)), try_split_host("h:65535"));
    assert_eq!(None, try_split_host("h:65536"));
    assert_eq!(None, try_split_host("h:"));
    assert_eq!(None, try_split_host("h:12a"));
    assert_eq!(Some(7), parse_port("+7"));
    assert_eq!(None, parse_port("+"));
    assert_eq!(None, parse_port("-7"));
}

#[test]
fn connection_arguments() {
    let args = MySqlConnectionArgs::from_program_args(ProgramArgs {
        host: "localhost:3307".to_string(),
        username: "root".to_string(),
    });
    assert_eq!("localhost", args.hostname_or_ip);
    assert_eq!(3307, args.port);
    assert_eq!("", args.password);

    let args = args.with_password("secret".to_string());
    assert_eq!("secret", args.password);
    assert_eq!("root", args.username);
}

#[test]
fn language_server_decisions() {
    assert_eq!(
        (LogLevel::Info, "applied".to_string()),
        edit_outcome_message(EditOutcome::Applied)
    );
    assert_eq!(
        (LogLevel::Info, "rejected".to_string()),
        edit_outcome_message(EditOutcome::Rejected)
    );
    assert_eq!(
        (LogLevel::Error, "boom".to_string()),
        edit_outcome_message(EditOutcome::Failed("boom".to_string()))
    );
    assert_eq!(4, output_line(3));
}

#[test]
fn sourced_values_keep_their_source() {
    let at = Position { start: 1, end: 3 };
    let value = Sourced::from_input(at, 2u32);
    assert_eq!(Source::Input(at), value.source);

    let doubled = value.map(|x| x * 2);
    assert_eq!(4, doubled.it);
    assert_eq!(Source::Input(at), doubled.source);

    let described = doubled.map_ref(|x| *x + 1);
    assert_eq!(5, described.it);
    assert_eq!(Source::Input(at), described.source);

    let widened: Sourced<u64> = described.into();
    assert_eq!(5u64, widened.it);
    assert_eq!(Source::Input(at), widened.source);

    assert_eq!(Source::Implicit, Sourced::implicit(1).source);
    assert_eq!(Source::Introspection, Sourced::from_introspection(1).source);
    assert_eq!(Source::Implicit, Sourced::from_source(Source::Implicit, 1).source);

    let ok: Sourced<Result<u8, &str>> = Sourced::from_input(at, Ok(1));
    assert_eq!(Ok(Sourced::from_input(at, 1)), ok.unwrap_result());
    let err: Sourced<Result<u8, &str>> = Sourced::from_input(at, Err("no"));
    assert_eq!(Err("no"), err.unwrap_result());
}

#[test]
fn positions_from_ranges() {
    let position: Position = (2..6).into();
    assert_eq!(Position { start: 2, end: 6 }, position);
    assert_eq!(Source::Input(position), Source::from(&position));
}

#[test]
fn cached_kinds_have_their_own_folders() {
    assert_ne!(Server::type_id(), Context::type_id());
    assert_ne!(Server::type_id(), ContextName::type_id());
    assert_ne!(Context::type_id(), ContextName::type_id());
}
