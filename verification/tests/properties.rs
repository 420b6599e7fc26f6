use foropts::low::slice_iter::{ErrorKind, Item, SliceIter};
use foropts::low::Presence::{Always, IfAttached, Never};
use foropts::low::{Config, Flag, FnConfig, HashConfig, Policy, Presence};

fn shorts(entries: &[(char, Presence)]) -> HashConfig<&'static str> {
    let mut config = HashConfig::new();
    for &(c, presence) in entries {
        config = config.short(c, presence);
    }
    config
}

fn run<'a, C: Config>(config: C, args: &'a [&'a str]) -> Vec<Item<'a, C::Token>> {
    config.into_slice_iter(args).collect()
}

#[test]
fn lookups_repeat_their_answers() {
    let hash: HashConfig<&str> =
        HashConfig::new().both('m', "message", true).long("log", IfAttached);
    let list = [(Flag::Short('v'), Never), (Flag::Long("verbose"), Never)];
    let function = FnConfig::new(|flag: Flag<&str>| match flag {
        Flag::Short('x') => Some(Always),
        Flag::Long("extra") => Some(IfAttached),
        _ => None,
    });
    for c in ['m', 'v', 'x', 'z', '-', 'é'] {
        assert_eq!(hash.get_short_policy(c), hash.get_short_policy(c));
        assert_eq!(list.get_short_policy(c), list.get_short_policy(c));
        assert_eq!(function.get_short_policy(c), function.get_short_policy(c));
    }
    for name in ["message", "log", "verbose", "extra", "", "nope"] {
        let again = name.to_owned();
        assert_eq!(hash.get_long_policy(name), hash.get_long_policy(&again));
        assert_eq!(list.get_long_policy(name), list.get_long_policy(&again));
        assert_eq!(function.get_long_policy(name), function.get_long_policy(&again));
    }
    assert_eq!(hash.get_short_policy('m'), Some(Policy { presence: Always, token: () }));
    assert_eq!(hash.get_long_policy("log"), Some(Policy { presence: IfAttached, token: () }));
    assert_eq!(hash.get_long_policy("lo"), None);
}

#[test]
fn cluster_of_flags_yields_one_option_each() {
    let config = shorts(&[('a', Never), ('b', Never), ('c', Never)]);
    let args = ["-abcab", "next"];
    let mut iter = SliceIter::new(&config, &args);
    for c in ['a', 'b', 'c', 'a', 'b'] {
        assert_eq!(iter.next(), Some(Item::Opt(Flag::Short(c), None, ())));
    }
    assert_eq!(iter.next(), Some(Item::Positional("next")));
    assert_eq!(iter.next(), None);
    assert_eq!(run(&config, &["-a"]), vec![Item::Opt(Flag::Short('a'), None, ())]);
}

#[test]
fn attached_parameter_takes_the_whole_rest() {
    let config = shorts(&[('o', Always), ('a', Never)]);
    assert_eq!(
        run(&config, &["-oafile"]),
        vec![Item::Opt(Flag::Short('o'), Some("afile"), ())]
    );
    assert_eq!(
        run(&config, &["-o-a"]),
        vec![Item::Opt(Flag::Short('o'), Some("-a"), ())]
    );
}

#[test]
fn separate_parameter_is_the_next_argument() {
    let config = shorts(&[('o', Always)]);
    assert_eq!(
        run(&config, &["-o", "afile"]),
        vec![Item::Opt(Flag::Short('o'), Some("afile"), ())]
    );
    assert_eq!(
        run(&config, &["-o", "--", "x"]),
        vec![Item::Opt(Flag::Short('o'), Some("--"), ()), Item::Positional("x")]
    );
}

#[test]
fn double_hyphen_ends_the_options() {
    let config = shorts(&[('a', true.into())]).short('a', false);
    assert_eq!(
        run(&config, &["-a", "--", "-a"]),
        vec![Item::Opt(Flag::Short('a'), None, ()), Item::Positional("-a")]
    );
    assert_eq!(
        run(&config, &["--", "--", "--x=1", "-"]),
        vec![Item::Positional("--"), Item::Positional("--x=1"), Item::Positional("-")]
    );
    assert_eq!(run(&config, &["--"]), vec![]);
}

#[test]
fn unknown_flags_do_not_end_a_cluster() {
    let config: HashConfig<&str> = HashConfig::new();
    let unknown = |c| Item::Error(ErrorKind::UnknownFlag(Flag::Short(c)));
    assert_eq!(
        run(&config, &["-eieio"]),
        vec![unknown('e'), unknown('i'), unknown('e'), unknown('i'), unknown('o')]
    );
}

#[test]
fn attached_parameter_on_a_long_flag_without_one_is_an_error() {
    let config: HashConfig<&str> = HashConfig::new().long("all", Never);
    assert_eq!(
        run(&config, &["--all=none"]),
        vec![Item::Error(ErrorKind::UnexpectedParam(Flag::Long("all"), "none"))]
    );
    assert_eq!(
        run(&config, &["--all=", "--all"]),
        vec![
            Item::Error(ErrorKind::UnexpectedParam(Flag::Long("all"), "")),
            Item::Opt(Flag::Long("all"), None, ())
        ]
    );
}

#[test]
fn missing_parameter_at_the_end() {
    let config = shorts(&[('f', Always)]);
    let args = ["-f"];
    let mut iter = config.slice_iter(&args);
    assert_eq!(iter.next(), Some(Item::Error(ErrorKind::MissingParam(Flag::Short('f')))));
    assert_eq!(iter.next(), None);
    assert_eq!(iter.next(), None);
}

#[test]
fn overlay_prefers_the_first_configuration() {
    let first = shorts(&[('v', Always)]).long("verbose", Always);
    let second = shorts(&[('v', Never), ('q', Never)]).long("verbose", Never).long("quiet", Never);
    let alone = first.get_short_policy('v');
    let overlay = (first, second);
    assert_eq!(overlay.get_short_policy('v'), alone);
    assert_eq!(overlay.get_short_policy('v'), Some(Policy { presence: Always, token: () }));
    assert_eq!(overlay.get_long_policy("verbose"), Some(Policy { presence: Always, token: () }));
    assert_eq!(overlay.get_short_policy('q'), Some(Policy { presence: Never, token: () }));
    assert_eq!(overlay.get_long_policy("quiet"), Some(Policy { presence: Never, token: () }));
    assert_eq!(overlay.get_short_policy('x'), None);
    assert_eq!(
        run(&overlay, &["-vq", "-q"]),
        vec![
            Item::Opt(Flag::Short('v'), Some("q"), ()),
            Item::Opt(Flag::Short('q'), None, ())
        ]
    );
}

#[test]
fn if_attached_ends_a_cluster_and_takes_no_next_argument() {
    let config = shorts(&[('r', IfAttached), ('t', Never)]).long("rebase", IfAttached);
    assert_eq!(
        run(&config, &["-r", "t", "-trt", "-tr", "--rebase", "x", "--rebase=", "--rebase=a=b"]),
        vec![
            Item::Opt(Flag::Short('r'), None, ()),
            Item::Positional("t"),
            Item::Opt(Flag::Short('t'), None, ()),
            Item::Opt(Flag::Short('r'), Some("t"), ()),
            Item::Opt(Flag::Short('t'), None, ()),
            Item::Opt(Flag::Short('r'), None, ()),
            Item::Opt(Flag::Long("rebase"), None, ()),
            Item::Positional("x"),
            Item::Opt(Flag::Long("rebase"), Some(""), ()),
            Item::Opt(Flag::Long("rebase"), Some("a=b"), ()),
        ]
    );
}

#[test]
fn lone_hyphen_and_empty_argument_are_positional() {
    let config: HashConfig<&str> = HashConfig::new();
    assert_eq!(
        run(&config, &["-", "", "plain"]),
        vec![Item::Positional("-"), Item::Positional(""), Item::Positional("plain")]
    );
}

#[test]
fn unknown_long_flags_are_errors() {
    let config: HashConfig<&str> = HashConfig::new().long("out", true);
    assert_eq!(
        run(&config, &["--nope", "--nope=1", "--=1", "--out"]),
        vec![
            Item::Error(ErrorKind::UnknownFlag(Flag::Long("nope"))),
            Item::Error(ErrorKind::UnknownFlag(Flag::Long("nope"))),
            Item::Error(ErrorKind::UnknownFlag(Flag::Long(""))),
            Item::Error(ErrorKind::MissingParam(Flag::Long("out"))),
        ]
    );
}

#[test]
fn tokens_are_handed_through() {
    let config: HashConfig<&str, u8> = HashConfig::new()
        .short('a', (false, 1))
        .long("all", (Never, 2))
        .both('o', "out", (Always, 3));
    assert_eq!(config.get_short_policy('o'), Some(Policy::new(true, 3)));
    assert_eq!(
        run(&config, &["-ao", "x", "--all", "--out=y"]),
        vec![
            Item::Opt(Flag::Short('a'), None, 1),
            Item::Opt(Flag::Short('o'), Some("x"), 3),
            Item::Opt(Flag::Long("all"), None, 2),
            Item::Opt(Flag::Long("out"), Some("y"), 3),
        ]
    );
    let list: [(Flag<&str>, bool, &str); 2] =
        [(Flag::Short('a'), false, "first"), (Flag::Short('a'), true, "second")];
    assert_eq!(list.get_short_policy('a'), Some(Policy { presence: Never, token: "first" }));
    assert_eq!(list.get_long_policy("a"), None);
}

#[test]
fn later_registration_replaces_earlier() {
    let config: HashConfig<String> = HashConfig::new()
        .short('a', false)
        .short('a', IfAttached)
        .long("all", false)
        .long("all".to_owned(), true);
    assert_eq!(config.get_short_policy('a'), Some(Policy { presence: IfAttached, token: () }));
    assert_eq!(config.get_long_policy("all"), Some(Policy { presence: Always, token: () }));
    let spare: HashConfig<String> = HashConfig::with_capacities(4, 4);
    assert_eq!(spare.get_short_policy('a'), None);
    assert_eq!(spare.get_long_policy("all"), None);
}

#[test]
fn configuration_can_be_exchanged_in_mid_cluster() {
    let first = shorts(&[('a', Never)]);
    let second = shorts(&[('b', Always)]);
    let args = ["-ab", "x", "--", "-a"];
    let mut iter = SliceIter::new(first, &args);
    assert_eq!(iter.next(), Some(Item::Opt(Flag::Short('a'), None, ())));
    assert_eq!(
        iter.next_with_config(&second),
        Some(Item::Opt(Flag::Short('b'), Some("x"), ()))
    );
    let mut iter = iter.with_config(second);
    assert_eq!(iter.next(), Some(Item::Positional("-a")));
    *iter.config_mut() = shorts(&[]);
    assert_eq!(iter.next(), None);
}

#[test]
fn texts_outside_ascii() {
    let config: HashConfig<&str> =
        HashConfig::new().short('é', true).long("größe", true).short('x', false);
    assert_eq!(
        run(&config, &["-xéà", "--größe=süß", "-é", "ß", "-ß"]),
        vec![
            Item::Opt(Flag::Short('x'), None, ()),
            Item::Opt(Flag::Short('é'), Some("à"), ()),
            Item::Opt(Flag::Long("größe"), Some("süß"), ()),
            Item::Opt(Flag::Short('é'), Some("ß"), ()),
            Item::Error(ErrorKind::UnknownFlag(Flag::Short('ß'))),
        ]
    );
}

#[test]
fn a_copy_of_the_tokenizer_goes_its_own_way() {
    let config = shorts(&[('a', Never)]);
    let args = ["-aa", "x"];
    let mut first = SliceIter::new(&config, &args);
    assert_eq!(first.next(), Some(Item::Opt(Flag::Short('a'), None, ())));
    let mut second = first.clone();
    assert_eq!(first.next(), Some(Item::Opt(Flag::Short('a'), None, ())));
    assert_eq!(first.next(), Some(Item::Positional("x")));
    assert_eq!(second.collect(), vec![Item::Opt(Flag::Short('a'), None, ()), Item::Positional("x")]);
    assert_eq!(first.next(), None);
    second = first.clone();
    assert_eq!(second.next(), None);
}

#[test]
fn owned_arguments_serve_as_well() {
    let config: HashConfig<String> = HashConfig::new().opt('o', true).opt("all".to_owned(), false);
    let args: Vec<String> = vec!["-o".to_owned(), "file".to_owned(), "--all".to_owned()];
    let result: Vec<_> = config.slice_iter(&args).collect();
    assert_eq!(
        result,
        vec![
            Item::Opt(Flag::Short('o'), Some("file"), ()),
            Item::Opt(Flag::Long("all"), None, ())
        ]
    );
}
