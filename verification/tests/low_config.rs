use foropts::low::Flag::{Long, Short};
use foropts::low::Presence::{Always, IfAttached, Never};
use foropts::low::{Config, Flag, FnConfig, HashConfig, Policy, Presence};

fn pres<T>(res: Option<Policy<T>>) -> Option<Presence> {
    res.map(|policy| policy.presence)
}

fn check_config<C: Config>(config: C) {
    assert_eq!(pres(config.get_short_policy('a')), Some(Never));
    assert_eq!(pres(config.get_short_policy('b')), None);
    assert_eq!(pres(config.get_short_policy('m')), Some(Always));
    assert_eq!(pres(config.get_short_policy('r')), Some(IfAttached));
    assert_eq!(pres(config.get_short_policy('s')), Some(Always));
    assert_eq!(pres(config.get_short_policy('v')), Some(Never));
    assert_eq!(pres(config.get_short_policy('q')), Some(Never));

    assert_eq!(pres(config.get_long_policy("all")), Some(Never));
    assert_eq!(pres(config.get_long_policy("bare")), None);
    assert_eq!(pres(config.get_long_policy("log")), Some(IfAttached));
    assert_eq!(pres(config.get_long_policy("message")), Some(Always));
    assert_eq!(pres(config.get_long_policy("rebase")), Some(IfAttached));
    assert_eq!(pres(config.get_long_policy("strategy")), Some(Always));
    assert_eq!(pres(config.get_long_policy("verbose")), Some(Never));
    assert_eq!(pres(config.get_long_policy("quiet")), Some(Never));
}

#[test]
fn hash_config() {
    let config: HashConfig<String> = HashConfig::new()
        .both('a', "all", false)
        .long("log", IfAttached)
        .both('m', "message", true)
        .both('r', "rebase", IfAttached)
        .both('s', "strategy", Always)
        .both('v', "verbose", Never)
        .both('q', "quiet", Never);

    check_config(config);
}

#[test]
fn bare_bool_config() {
    let config = [
        (Short('a'), false),
        (Long("all"), false),
        (Short('m'), true),
        (Long("message"), true),
    ];

    assert_eq!(pres(config.get_short_policy('a')), Some(Never));
    assert_eq!(pres(config.get_short_policy('b')), None);
    assert_eq!(pres(config.get_short_policy('m')), Some(Always));

    assert_eq!(pres(config.get_long_policy("all")), Some(Never));
    assert_eq!(pres(config.get_long_policy("bare")), None);
    assert_eq!(pres(config.get_long_policy("message")), Some(Always));
}

#[test]
fn bare_presence_config() {
    let config = [
        (Short('a'), Never),
        (Long("all"), Never),
        (Long("log"), IfAttached),
        (Short('m'), Always),
        (Long("message"), Always),
        (Short('r'), IfAttached),
        (Long("rebase"), IfAttached),
        (Short('s'), Always),
        (Long("strategy"), Always),
        (Short('v'), Never),
        (Long("verbose"), Never),
        (Short('q'), Never),
        (Long("quiet"), Never),
    ];

    check_config(&config as &[_]);
}

#[test]
fn pair_config() {
    let common_config = [
        (Short('v'), Never),
        (Long("verbose"), Never),
        (Short('q'), Never),
        (Long("quiet"), Never),
    ];

    let specific_config: HashConfig<&str> = HashConfig::new()
        .both('a', "all", false)
        .long("log", IfAttached)
        .both('m', "message", true)
        .both('r', "rebase", IfAttached)
        .both('s', "strategy", Always);

    let config = (specific_config, &common_config as &[_]);

    check_config(config);
}

fn get(flag: Flag<&str>) -> Option<Presence> {
    let presence = match flag {
        Short('a') => Never,
        Long("all") => Never,
        Long("log") => IfAttached,
        Short('m') => Always,
        Long("message") => Always,
        Short('r') => IfAttached,
        Long("rebase") => IfAttached,
        Short('s') => Always,
        Long("strategy") => Always,
        Short('v') => Never,
        Long("verbose") => Never,
        Short('q') => Never,
        Long("quiet") => Never,
        _ => return None,
    };
    Some(presence)
}

#[test]
fn fn_config() {
    let config = FnConfig::new(get);

    check_config(config);
    assert_eq!(config(Short('m')), Some(Always));
    assert_eq!(config.ask(Long("log")), Some(IfAttached));
    assert_eq!(config.into_inner()(Long("nope")), None);
}

#[test]
fn allow_everything() {
    let config = FnConfig::new(|_| Some(IfAttached));
    assert_eq!(pres(config.get_short_policy('q')), Some(IfAttached));
    assert_eq!(pres(config.get_long_policy("tralala")), Some(IfAttached));
}
