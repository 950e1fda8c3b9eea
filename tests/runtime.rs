use snafu::trace::{decimal_string, index_width, render_frames, spaces_string, Frame, Symbol};
use snafu::{Backtrace, Context, ErrorCompat, ResultExt};
use std::cell::Cell;
use std::path::PathBuf;

#[derive(Debug, Clone, PartialEq)]
struct IoFailure(String);

#[derive(Debug)]
enum Error {
    OpenConfig { filename: PathBuf, source: IoFailure },
    UserIdInvalid { user_id: i32, backtrace: Backtrace },
    Authenticating { user_name: String, user_id: i32, source: IoFailure },
}

struct OpenConfig<P> {
    filename: P,
}

struct UserIdInvalid<I> {
    user_id: I,
}

struct Authenticating<N, I> {
    user_name: N,
    user_id: I,
}

impl<P: Into<PathBuf>> From<Context<IoFailure, OpenConfig<P>>> for Error {
    fn from(c: Context<IoFailure, OpenConfig<P>>) -> Self {
        Error::OpenConfig { filename: c.context.filename.into(), source: c.error }
    }
}

impl<N: Into<String>, I: Into<i32>> From<Context<IoFailure, Authenticating<N, I>>> for Error {
    fn from(c: Context<IoFailure, Authenticating<N, I>>) -> Self {
        Error::Authenticating {
            user_name: c.context.user_name.into(),
            user_id: c.context.user_id.into(),
            source: c.error,
        }
    }
}

impl<I: Into<i32>> UserIdInvalid<I> {
    fn fail<T>(self) -> Result<T, Error> {
        Err(Error::UserIdInvalid { user_id: self.user_id.into(), backtrace: Backtrace::new() })
    }
}

impl ErrorCompat for Error {
    fn backtrace(&self) -> Option<&Backtrace> {
        match self {
            Error::UserIdInvalid { backtrace, .. } => Some(backtrace),
            _ => None,
        }
    }
}

impl Error {
    fn cause(&self) -> Option<&IoFailure> {
        match self {
            Error::OpenConfig { source, .. } => Some(source),
            Error::Authenticating { source, .. } => Some(source),
            Error::UserIdInvalid { .. } => None,
        }
    }

    fn message(&self) -> String {
        match self {
            Error::OpenConfig { filename, source } => {
                format!("Could not open config from {}: {}", filename.display(), source.0)
            }
            Error::UserIdInvalid { user_id, .. } => format!("The user id {} is invalid", user_id),
            Error::Authenticating { user_name, user_id, source } => {
                format!("Could not authenticate {} ({}): {}", user_name, user_id, source.0)
            }
        }
    }
}

fn read_config(ok: bool) -> Result<Vec<u8>, IoFailure> {
    if ok {
        Ok(vec![1, 2, 3])
    } else {
        Err(IoFailure("not found".to_string()))
    }
}

#[test]
fn context_pairs_error_with_context() {
    let r: Result<u8, Context<&str, u32>> = Err::<u8, &str>("boom").context(7u32);
    match r {
        Err(c) => {
            assert_eq!(c.error, "boom");
            assert_eq!(c.context, 7);
        }
        Ok(_) => panic!("expected an error"),
    }
}

#[test]
fn context_keeps_success() {
    let r: Result<u8, Context<&str, u32>> = Ok::<u8, &str>(5).context(7u32);
    assert_eq!(r.ok(), Some(5));
}

#[test]
fn with_context_is_lazy_on_success() {
    let calls = Cell::new(0);
    let r = Ok::<u8, &str>(5).with_context(|| {
        calls.set(calls.get() + 1);
        1u32
    });
    assert_eq!(r.ok(), Some(5));
    assert_eq!(calls.get(), 0);
}

#[test]
fn with_context_calls_once_on_error() {
    let calls = Cell::new(0);
    let r = Err::<u8, &str>("boom").with_context(|| {
        calls.set(calls.get() + 1);
        9u32
    });
    assert_eq!(calls.get(), 1);
    let c = r.err().unwrap();
    assert_eq!(c.error, "boom");
    assert_eq!(c.context, 9);
}

#[test]
fn context_is_eager() {
    let calls = Cell::new(0);
    let make = || {
        calls.set(calls.get() + 1);
        3u32
    };
    let r = Ok::<u8, &str>(1).context(make());
    assert_eq!(r.ok(), Some(1));
    assert_eq!(calls.get(), 1);
}

#[test]
fn open_config_scenario() {
    let r: Result<Vec<u8>, Error> =
        read_config(false).context(OpenConfig { filename: "config.toml" }).map_err(Error::from);
    let e = r.err().unwrap();
    assert_eq!(e.message(), "Could not open config from config.toml: not found");
    assert_eq!(e.cause(), Some(&IoFailure("not found".to_string())));
    assert!(ErrorCompat::backtrace(&e).is_none());
}

#[test]
fn eager_context_converts() {
    let r: Result<Vec<u8>, Error> = read_config(false).eager_context(OpenConfig { filename: "a.toml" });
    let e = r.err().unwrap();
    assert_eq!(e.message(), "Could not open config from a.toml: not found");
    let ok: Result<Vec<u8>, Error> = read_config(true).eager_context(OpenConfig { filename: "a.toml" });
    assert_eq!(ok.ok(), Some(vec![1, 2, 3]));
}

#[test]
fn with_eager_context_converts_per_field() {
    let calls = Cell::new(0);
    let r: Result<i32, Error> = Err::<i32, IoFailure>(IoFailure("denied".to_string()))
        .with_eager_context(|| {
            calls.set(calls.get() + 1);
            Authenticating { user_name: "admin", user_id: 42i16 }
        });
    assert_eq!(calls.get(), 1);
    let e = r.err().unwrap();
    match &e {
        Error::Authenticating { user_name, user_id, source } => {
            assert_eq!(user_name, "admin");
            assert_eq!(*user_id, 42);
            assert_eq!(source, &IoFailure("denied".to_string()));
        }
        _ => panic!("wrong variant"),
    }
    let ok: Result<i32, Error> = Ok::<i32, IoFailure>(4).with_eager_context(|| {
        calls.set(calls.get() + 1);
        Authenticating { user_name: "admin", user_id: 42i16 }
    });
    assert_eq!(ok.ok(), Some(4));
    assert_eq!(calls.get(), 1);
}

#[test]
fn fail_always_errs_with_backtrace() {
    let r: Result<String, Error> = UserIdInvalid { user_id: -1i8 }.fail();
    let e = r.err().unwrap();
    assert!(e.message().contains("-1"));
    let bt = ErrorCompat::backtrace(&e).expect("a backtrace");
    assert!(!bt.frames().is_empty());
    assert!(e.cause().is_none());
    let r2: Result<u64, Error> = UserIdInvalid { user_id: 7 }.fail();
    assert!(r2.is_err());
}

fn sym(name: Option<&str>, file: Option<&str>, line: Option<u32>) -> Symbol {
    Symbol { name: name.map(String::from), file: file.map(String::from), line }
}

#[test]
fn index_width_counts_digits() {
    assert_eq!(index_width(0), 1);
    assert_eq!(index_width(9), 1);
    assert_eq!(index_width(10), 2);
    assert_eq!(index_width(99), 2);
    assert_eq!(index_width(100), 3);
    assert_eq!(index_width(usize::MAX), 20);
}

#[test]
fn decimal_and_spaces() {
    assert_eq!(decimal_string(0), "0");
    assert_eq!(decimal_string(4096), "4096");
    assert_eq!(spaces_string(3), "   ");
    assert_eq!(spaces_string(0), "");
}

#[test]
fn render_single_frame() {
    let frames = vec![Frame { symbols: vec![sym(Some("main"), Some("src/main.rs"), Some(12))] }];
    assert_eq!(render_frames(&frames), "0 main\n  src/main.rs:12\n");
}

#[test]
fn render_unknown_name_and_no_line() {
    let frames = vec![Frame { symbols: vec![sym(None, Some("lib.rs"), None), sym(Some("inner"), None, None)] }];
    assert_eq!(render_frames(&frames), "0 <unknown>\n  lib.rs\n  inner\n");
}

#[test]
fn render_nine_frames_one_digit() {
    let frames: Vec<Frame> = (0..9).map(|_| Frame { symbols: vec![sym(Some("f"), None, None)] }).collect();
    let text = render_frames(&frames);
    assert_eq!(text, "0 f\n1 f\n2 f\n3 f\n4 f\n5 f\n6 f\n7 f\n8 f\n");
}

#[test]
fn render_ten_frames_two_digits() {
    let frames: Vec<Frame> = (0..10).map(|_| Frame { symbols: vec![sym(Some("f"), None, None)] }).collect();
    let text = render_frames(&frames);
    let lines: Vec<&str> = text.lines().collect();
    assert_eq!(lines.len(), 10);
    assert_eq!(lines[0], " 0 f");
    assert_eq!(lines[9], " 9 f");
}

#[test]
fn render_skips_frames_without_symbols() {
    let frames = vec![
        Frame { symbols: vec![] },
        Frame { symbols: vec![sym(Some("g"), None, None)] },
    ];
    assert_eq!(render_frames(&frames), "1 g\n");
}

#[test]
fn backtrace_from_frames_renders() {
    let bt = Backtrace::from_frames(vec![Frame { symbols: vec![sym(Some("h"), Some("x.rs"), Some(3))] }]);
    assert_eq!(bt.frames().len(), 1);
    assert_eq!(bt.to_string(), "0 h\n  x.rs:3\n");
}

#[test]
fn captured_backtrace_renders_lines() {
    let bt = Backtrace::default();
    assert!(!bt.frames().is_empty());
    let text = bt.to_string();
    let with_symbols = bt.frames().iter().filter(|f| !f.symbols.is_empty()).count();
    if with_symbols > 0 {
        assert!(text.starts_with('0') || text.starts_with(' '));
    }
}
