use foropts::low::iter_iter::{ErrorKind, Item, IterIter, Opt};
use foropts::low::{Flag, HashConfig};

#[test]
fn short_flag() {
    let opt1: Opt<&str> = Opt::new(Flag::Short('a'), None);
    let opt2: Opt<&str> = Opt::new_short_flag('a');
    assert_eq!(opt1, opt2);
}

#[test]
fn long_flag() {
    let opt1: Opt<&str> = Opt::new(Flag::Long("all"), None);
    let opt2: Opt<&str> = Opt::new_long_flag("--all", 2..5);
    assert_eq!(opt1, opt2);
}

#[test]
fn short_param() {
    let opt1: Opt<&str> = Opt::new(Flag::Short('m'), Some("hello"));
    let opt2: Opt<&str> = Opt::new_short_param('m', "-mhello", 2..7);
    assert_eq!(opt1, opt2);
}

#[test]
fn long_param_separate() {
    let opt1: Opt<&str> = Opt::new(Flag::Long("message"), Some("hello"));
    let opt2: Opt<&str> = Opt::new_long_param(Some("--message"), 2..9, "hello", 0..5);
    assert_eq!(opt1, opt2);
}

#[test]
fn long_param_shared() {
    let opt1: Opt<&str> = Opt::new(Flag::Long("message"), Some("hello"));
    let opt2: Opt<&str> = Opt::new_long_param(None, 2..9, "--message=hello", 10..15);
    assert_eq!(opt1, opt2);
}

#[test]
fn options_differ_by_flag_and_by_parameter() {
    let short: Opt<&str> = Opt::new(Flag::Short('m'), Some("hello"));
    let long: Opt<&str> = Opt::new(Flag::Long("m"), Some("hello"));
    let other: Opt<&str> = Opt::new(Flag::Short('m'), Some("hullo"));
    let bare: Opt<&str> = Opt::new(Flag::Short('m'), None);
    assert_ne!(short, long);
    assert_ne!(short, other);
    assert_ne!(short, bare);
    assert_eq!(short.flag(), Flag::Short('m'));
    assert_eq!(short.param(), Some("hello"));
    assert_eq!(long.flag(), Flag::Long("m"));
    assert_eq!(bare.param(), None);
}

fn config() -> HashConfig<&'static str> {
    HashConfig::new()
        .opt('a', false)
        .opt("all", false)
        .opt('o', true)
        .opt("out", true)
}

/// What an owned item holds, in plain values.
#[derive(Debug, PartialEq)]
enum Seen {
    Opt(Flag<String>, Option<String>),
    Positional(String),
    Error(ErrorKind, Flag<String>, Option<String>),
}

fn owned_flag(flag: Flag<&str>) -> Flag<String> {
    match flag {
        Flag::Short(c) => Flag::Short(c),
        Flag::Long(s) => Flag::Long(s.to_owned()),
    }
}

fn seen(item: Item<String, ()>) -> Seen {
    match item {
        Item::Opt(opt, ()) => Seen::Opt(owned_flag(opt.flag()), opt.param().map(str::to_owned)),
        Item::Positional(arg) => Seen::Positional(arg),
        Item::Error(error) => Seen::Error(
            error.kind,
            owned_flag(error.option.flag()),
            error.option.param().map(str::to_owned),
        ),
    }
}

fn parse_owned(input: &[&str]) -> Vec<Seen> {
    let source: Vec<String> = input.iter().map(|s| s.to_string()).collect();
    let mut parser = IterIter::new(config(), source.into_iter());
    let mut result = Vec::new();
    while let Some(item) = parser.next() {
        result.push(seen(item));
    }
    assert!(parser.next().is_none());
    result
}

fn short_opt(c: char, param: Option<&str>) -> Seen {
    Seen::Opt(Flag::Short(c), param.map(str::to_owned))
}

fn long_opt(name: &str, param: Option<&str>) -> Seen {
    Seen::Opt(Flag::Long(name.to_owned()), param.map(str::to_owned))
}

#[test]
fn owned_short_clusters() {
    assert_eq!(
        parse_owned(&["-a", "-ofile"]),
        vec![short_opt('a', None), short_opt('o', Some("file"))]
    );
    assert_eq!(
        parse_owned(&["-aofile"]),
        vec![short_opt('a', None), short_opt('o', Some("file"))]
    );
    assert_eq!(parse_owned(&["-oafile"]), vec![short_opt('o', Some("afile"))]);
    assert_eq!(parse_owned(&["-o", "afile"]), vec![short_opt('o', Some("afile"))]);
    assert_eq!(
        parse_owned(&["-o", "a", "file"]),
        vec![short_opt('o', Some("a")), Seen::Positional("file".to_owned())]
    );
}

#[test]
fn owned_unknown_flags_do_not_end_a_cluster() {
    assert_eq!(
        parse_owned(&["-eieio"]),
        vec![
            Seen::Error(ErrorKind::UnknownFlag, Flag::Short('e'), None),
            Seen::Error(ErrorKind::UnknownFlag, Flag::Short('i'), None),
            Seen::Error(ErrorKind::UnknownFlag, Flag::Short('e'), None),
            Seen::Error(ErrorKind::UnknownFlag, Flag::Short('i'), None),
            Seen::Error(ErrorKind::MissingParam, Flag::Short('o'), None),
        ]
    );
    assert_eq!(
        parse_owned(&["-e-o", "-a", "--", "-a"]),
        vec![
            Seen::Error(ErrorKind::UnknownFlag, Flag::Short('e'), None),
            Seen::Error(ErrorKind::UnknownFlag, Flag::Short('-'), None),
            short_opt('o', Some("-a")),
            Seen::Positional("-a".to_owned()),
        ]
    );
}

#[test]
fn owned_long_options() {
    assert_eq!(
        parse_owned(&["--all", "--out=file"]),
        vec![long_opt("all", None), long_opt("out", Some("file"))]
    );
    assert_eq!(
        parse_owned(&["--all", "--out", "file"]),
        vec![long_opt("all", None), long_opt("out", Some("file"))]
    );
    assert_eq!(parse_owned(&["--out", "-afile"]), vec![long_opt("out", Some("-afile"))]);
    assert_eq!(
        parse_owned(&["--out"]),
        vec![Seen::Error(ErrorKind::MissingParam, Flag::Long("out".to_owned()), None)]
    );
    assert_eq!(
        parse_owned(&["--all=none"]),
        vec![Seen::Error(
            ErrorKind::UnexpectedParam,
            Flag::Long("all".to_owned()),
            Some("none".to_owned())
        )]
    );
    assert_eq!(
        parse_owned(&["--nope=x", "--nope", "-", ""]),
        vec![
            Seen::Error(
                ErrorKind::UnknownFlag,
                Flag::Long("nope".to_owned()),
                Some("x".to_owned())
            ),
            Seen::Error(ErrorKind::UnknownFlag, Flag::Long("nope".to_owned()), None),
            Seen::Positional("-".to_owned()),
            Seen::Positional("".to_owned()),
        ]
    );
}

#[test]
fn owned_texts_outside_ascii() {
    assert_eq!(
        parse_owned(&["--out=größe", "-oé", "-é", "--où"]),
        vec![
            long_opt("out", Some("größe")),
            short_opt('o', Some("é")),
            Seen::Error(ErrorKind::UnknownFlag, Flag::Short('é'), None),
            Seen::Error(ErrorKind::UnknownFlag, Flag::Long("où".to_owned()), None),
        ]
    );
}

#[test]
fn owned_items_compare_by_what_they_hold() {
    let source = |args: &[&str]| args.iter().map(|s| s.to_string()).collect::<Vec<_>>().into_iter();
    let mut joined = IterIter::new(config(), source(&["--out=file", "x", "-q"]));
    let mut apart = IterIter::new(config(), source(&["--out", "file", "x", "-q"]));
    let (a, b) = (joined.next().unwrap(), apart.next().unwrap());
    assert_eq!(a, b);
    assert_eq!(a, Item::Opt(Opt::new(Flag::Long("out".to_owned()), Some("file".to_owned())), ()));
    let (a, b) = (joined.next().unwrap(), apart.next().unwrap());
    assert_eq!(a, b);
    assert_eq!(a, Item::Positional("x".to_owned()));
    assert_ne!(a, Item::Positional("y".to_owned()));
    let (a, b) = (joined.next().unwrap(), apart.next().unwrap());
    assert_eq!(a, b);
    assert_eq!(a, Item::error(ErrorKind::UnknownFlag, Opt::new_short_flag('q')));
    assert_ne!(a, Item::error(ErrorKind::MissingParam, Opt::new_short_flag('q')));
    assert_ne!(a, Item::Opt(Opt::new_short_flag('q'), ()));
    assert!(joined.next().is_none() && apart.next().is_none());
}

#[test]
fn owned_tokenizer_takes_another_configuration() {
    let source = vec!["-ab".to_owned(), "x".to_owned(), "--".to_owned(), "-a".to_owned()];
    let first: HashConfig<&str> = HashConfig::new().short('a', false);
    let second: HashConfig<&str> = HashConfig::new().short('b', true);
    let mut iter = IterIter::new(first, source.into_iter());
    assert_eq!(seen(iter.next().unwrap()), short_opt('a', None));
    assert_eq!(seen(iter.next_with_config(&second).unwrap()), short_opt('b', Some("x")));
    let mut iter = iter.with_config(second);
    assert_eq!(seen(iter.next().unwrap()), Seen::Positional("-a".to_owned()));
    *iter.config_mut() = HashConfig::new();
    assert!(iter.next().is_none());
}
