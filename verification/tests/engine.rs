use dmux::client::{select_attachment, MultiplexerError, Operation};
use dmux::engine::{Engine, Event, Next, Phase, Step};
use dmux::snapshot::{PaneView, SessionView, Snapshot, WindowView};
use dmux::target::Target;
use dmux::workspace::WorkSpace;

/// A server held in memory: it performs operations and shows its state.
struct Server {
    sessions: Vec<(String, Vec<(String, usize)>)>,
    default_window: String,
    log: Vec<String>,
}

impl Server {
    fn empty() -> Server {
        Server { sessions: vec![], default_window: "zsh".to_owned(), log: vec![] }
    }

    fn snapshot(&self) -> Snapshot {
        Snapshot {
            sessions: self
                .sessions
                .iter()
                .map(|(name, windows)| SessionView {
                    name: name.clone(),
                    windows: windows
                        .iter()
                        .map(|(window, panes)| WindowView {
                            name: window.clone(),
                            panes: (0..*panes).map(|index| PaneView { index }).collect(),
                        })
                        .collect(),
                })
                .collect(),
        }
    }

    fn window(&mut self, address: &str) -> Option<&mut (String, usize)> {
        let window_part = address.split('.').next().unwrap();
        let (session, window) = window_part.split_once(':').unwrap();
        self.sessions
            .iter_mut()
            .find(|(name, _)| name == session)
            .and_then(|(_, windows)| windows.iter_mut().find(|(name, _)| name == window))
    }

    fn perform(&mut self, operation: &Operation) -> Event {
        let line = match operation {
            Operation::NewSession { session, directory } => {
                self.sessions.push((session.clone(), vec![(self.default_window.clone(), 1)]));
                format!("new-session {} {}", session, directory)
            }
            Operation::NewWindow { session, window, directory } => {
                match self.sessions.iter_mut().find(|(name, _)| name == session) {
                    Some((_, windows)) => windows.push((window.clone(), 1)),
                    None => return failure("no such session"),
                }
                format!("new-window {} {} {}", session, window, directory)
            }
            Operation::SplitWindow { target, directory } => {
                let address = target.serialize();
                match self.window(&address) {
                    Some(window) => window.1 += 1,
                    None => return failure("no such window"),
                }
                format!("split-window {} {}", address, directory)
            }
            Operation::SelectLayout { target, layout } => {
                format!("select-layout {} {}", target.serialize(), layout)
            }
            Operation::SendKeys { target, keys } => {
                format!("send-keys {} {:?}", target.serialize(), keys)
            }
            Operation::KillWindow { target } => {
                let address = target.serialize();
                let (session, window) = address.split_once(':').unwrap();
                match self.sessions.iter_mut().find(|(name, _)| name == session) {
                    Some((_, windows)) => windows.retain(|(name, _)| name != window),
                    None => return failure("no such session"),
                }
                format!("kill-window {}", address)
            }
            Operation::AttachSession { target } => format!("attach-session {}", target.serialize()),
            Operation::SwitchClient { target } => format!("switch-client {}", target.serialize()),
        };
        self.log.push(line);
        Event::Completed(self.snapshot())
    }
}

fn failure(text: &str) -> Event {
    Event::Failed(MultiplexerError { status: Some(1), stderr: text.to_owned() })
}

fn request() -> WorkSpace {
    WorkSpace {
        path: "/home/u/proj".to_owned(),
        session_name: "dev".to_owned(),
        format_checksum: "L".to_owned(),
        commands: vec!["vim".to_owned(), "ls".to_owned()],
        window_name: None,
        number_of_panes: 2,
    }
}

/// Runs a reconciliation to its end and gives the engine and the last answer.
fn reconcile(server: &mut Server, request: WorkSpace, inside_client: bool) -> (Engine, Next) {
    assert!(request.can_name_window());
    let mut engine = Engine::new(request, inside_client);
    let mut event = Event::Completed(server.snapshot());
    for _ in 0..1000 {
        let (then, next) = engine.step(event);
        engine = then;
        match next {
            Next::Perform(operation) => event = server.perform(&operation),
            other => return (engine, other),
        }
    }
    panic!("the reconciliation did not end");
}

#[test]
fn fresh_server_gets_session_window_panes_layout_and_commands() {
    let mut server = Server::empty();
    let (engine, next) = reconcile(&mut server, request(), false);
    assert!(matches!(next, Next::Done));
    assert!(engine.is_finished());
    assert!(engine.skipped.is_empty());
    assert_eq!(
        server.log,
        vec![
            "new-session dev /home/u/proj",
            "new-window dev proj /home/u/proj",
            "split-window dev:proj /home/u/proj",
            "select-layout dev:proj.0 L",
            "send-keys dev:proj.0 \"vim\\r\"",
            "send-keys dev:proj.1 \"ls\\r\"",
            "kill-window dev:zsh",
            "attach-session dev:proj.0",
        ]
    );
    assert_eq!(server.sessions, vec![("dev".to_owned(), vec![("proj".to_owned(), 2)])]);
}

#[test]
fn second_run_only_focuses() {
    let mut server = Server::empty();
    reconcile(&mut server, request(), false);
    let before = server.sessions.clone();
    server.log.clear();
    let (engine, next) = reconcile(&mut server, request(), false);
    assert!(matches!(next, Next::Done));
    assert!(engine.skipped.is_empty());
    assert_eq!(server.log, vec!["attach-session dev:proj.0"]);
    assert_eq!(server.sessions, before);
    server.log.clear();
    reconcile(&mut server, request(), true);
    assert_eq!(server.log, vec!["switch-client dev:proj.0"]);
    assert_eq!(server.sessions, before);
}

#[test]
fn commands_outnumbering_the_layout_grow_the_window() {
    let mut server = Server::empty();
    let mut wanted = request();
    wanted.commands = vec!["vim".to_owned(), "ls".to_owned(), "htop".to_owned()];
    let (_, next) = reconcile(&mut server, wanted, false);
    assert!(matches!(next, Next::Done));
    assert_eq!(server.sessions, vec![("dev".to_owned(), vec![("proj".to_owned(), 3)])]);
    let splits = server.log.iter().filter(|line| line.starts_with("split-window")).count();
    assert_eq!(splits, 2);
    assert!(server.log.contains(&"send-keys dev:proj.2 \"htop\\r\"".to_owned()));
}

#[test]
fn existing_session_gets_only_the_window() {
    let mut server = Server::empty();
    server.sessions.push(("dev".to_owned(), vec![("other".to_owned(), 4)]));
    let (_, next) = reconcile(&mut server, request(), true);
    assert!(matches!(next, Next::Done));
    assert_eq!(
        server.log,
        vec![
            "new-window dev proj /home/u/proj",
            "split-window dev:proj /home/u/proj",
            "select-layout dev:proj.0 L",
            "send-keys dev:proj.0 \"vim\\r\"",
            "send-keys dev:proj.1 \"ls\\r\"",
            "switch-client dev:proj.0",
        ]
    );
    assert_eq!(
        server.sessions,
        vec![("dev".to_owned(), vec![("other".to_owned(), 4), ("proj".to_owned(), 2)])]
    );
}

#[test]
fn window_named_with_a_dot_is_found_again() {
    let mut server = Server::empty();
    let mut wanted = request();
    wanted.window_name = Some("coc.nvim".to_owned());
    wanted.session_name = "my dev".to_owned();
    reconcile(&mut server, wanted.clone(), false);
    assert_eq!(server.sessions, vec![("my-dev".to_owned(), vec![("coc-nvim".to_owned(), 2)])]);
    let view = server.snapshot();
    let found = view.find_window("my dev", "coc.nvim").unwrap();
    assert_eq!(found.name, "coc-nvim");
    assert_eq!(found.pane_count(), 2);
    assert!(view.find_session("my dev").is_some());
    assert!(view.find_session("my-dev").is_some());
    assert!(view.find_session("mydev").is_none());
    server.log.clear();
    reconcile(&mut server, wanted, false);
    assert_eq!(server.log, vec!["attach-session my-dev:coc-nvim.0"]);
}

#[test]
fn default_window_with_the_wanted_name_is_reused() {
    let mut server = Server::empty();
    server.default_window = "proj".to_owned();
    let (_, next) = reconcile(&mut server, request(), false);
    assert!(matches!(next, Next::Done));
    assert_eq!(server.log, vec!["new-session dev /home/u/proj", "attach-session dev:proj.0"]);
}

#[test]
fn default_window_addressed_like_the_wanted_one_is_not_removed() {
    let mut server = Server::empty();
    server.default_window = "my.proj".to_owned();
    let mut wanted = request();
    wanted.window_name = Some("my proj".to_owned());
    let (_, next) = reconcile(&mut server, wanted, false);
    assert!(matches!(next, Next::Done));
    assert!(!server.log.iter().any(|line| line.starts_with("kill-window")));
    assert!(server.log.contains(&"new-window dev my-proj /home/u/proj".to_owned()));
}

#[test]
fn failure_names_the_step_and_stops() {
    let wanted = request();
    let engine = Engine::new(wanted.clone(), false);
    let (engine, next) = engine.step(Event::Completed(Snapshot { sessions: vec![] }));
    assert!(matches!(next, Next::Perform(Operation::NewSession { .. })));
    assert!(matches!(engine.phase, Phase::CreatingSession));
    let (engine, next) = engine.step(failure("server went away"));
    match next {
        Next::Abort(error) => {
            assert_eq!(error.step, Step::Session);
            assert_eq!(error.cause.status, Some(1));
            assert_eq!(error.cause.stderr, "server went away");
        }
        other => panic!("unexpected answer {:?}", other),
    }
    assert!(engine.is_finished());
    let (engine, next) = engine.step(Event::Completed(Snapshot { sessions: vec![] }));
    assert!(matches!(next, Next::Idle));
    let (_, next) = engine.step(failure("again"));
    assert!(matches!(next, Next::Idle));
}

#[test]
fn each_step_is_named_in_its_failure() {
    let expected = [
        Step::Inspect,
        Step::Session,
        Step::Window,
        Step::Split,
        Step::Layout,
        Step::SendKeys,
        Step::SendKeys,
        Step::Cleanup,
        Step::Attach,
    ];
    for (fail_at, step) in expected.iter().enumerate() {
        let mut server = Server::empty();
        let mut engine = Engine::new(request(), false);
        let mut event = Event::Completed(server.snapshot());
        let mut answered = None;
        for turn in 0..20 {
            if turn == fail_at {
                event = failure("boom");
            }
            let (then, next) = engine.step(event);
            engine = then;
            match next {
                Next::Perform(operation) => event = server.perform(&operation),
                other => {
                    answered = Some(other);
                    break;
                }
            }
        }
        match answered {
            Some(Next::Abort(error)) => assert_eq!(error.step, *step),
            other => panic!("unexpected answer {:?}", other),
        }
    }
}

#[test]
fn commands_without_a_pane_are_skipped_and_noted() {
    let wanted = WorkSpace {
        commands: vec!["a".to_owned(), "b".to_owned(), "c".to_owned(), "d".to_owned()],
        ..request()
    };
    let window = |panes: Vec<usize>| Snapshot {
        sessions: vec![SessionView {
            name: "dev".to_owned(),
            windows: vec![WindowView {
                name: "proj".to_owned(),
                panes: panes.into_iter().map(|index| PaneView { index }).collect(),
            }],
        }],
    };
    let mut engine = Engine::new(wanted, false);
    engine.phase = Phase::ApplyingLayout;
    let (engine, next) = engine.step(Event::Completed(window(vec![1, 3])));
    match next {
        Next::Perform(Operation::SendKeys { target, keys }) => {
            assert_eq!(target.serialize(), "dev:proj.1");
            assert_eq!(keys, "b\r");
        }
        other => panic!("unexpected answer {:?}", other),
    }
    assert_eq!(engine.skipped, vec![0]);
    let (engine, next) = engine.step(Event::Completed(window(vec![1, 3])));
    match next {
        Next::Perform(Operation::SendKeys { target, keys }) => {
            assert_eq!(target.serialize(), "dev:proj.3");
            assert_eq!(keys, "d\r");
        }
        other => panic!("unexpected answer {:?}", other),
    }
    assert_eq!(engine.skipped, vec![0, 2]);
    let (engine, next) = engine.step(Event::Completed(window(vec![1, 3])));
    assert!(matches!(next, Next::Perform(Operation::AttachSession { .. })));
    assert_eq!(engine.skipped, vec![0, 2]);
    let (engine, next) = engine.step(Event::Completed(window(vec![1, 3])));
    assert!(matches!(next, Next::Done));
    assert!(engine.is_finished());
}

#[test]
fn first_command_goes_to_pane_zero_whatever_it_says() {
    for command in ["vim", "", "tmux kill-server", "echo 1.2 3"] {
        let mut server = Server::empty();
        let wanted = WorkSpace { commands: vec![command.to_owned()], ..request() };
        reconcile(&mut server, wanted, false);
        let sent: Vec<&String> =
            server.log.iter().filter(|line| line.starts_with("send-keys")).collect();
        assert_eq!(sent, vec![&format!("send-keys dev:proj.0 {:?}", format!("{}\r", command))]);
    }
}

#[test]
fn no_commands_and_no_panes_still_applies_the_layout() {
    let mut server = Server::empty();
    let wanted = WorkSpace { commands: vec![], number_of_panes: 0, ..request() };
    reconcile(&mut server, wanted, false);
    assert_eq!(
        server.log,
        vec![
            "new-session dev /home/u/proj",
            "new-window dev proj /home/u/proj",
            "select-layout dev:proj.0 L",
            "kill-window dev:zsh",
            "attach-session dev:proj.0",
        ]
    );
}

#[test]
fn attachment_depends_on_the_client() {
    let target = Target { session: "dev".to_owned(), window: "proj".to_owned(), pane: Some(0) };
    match select_attachment(true, target.clone()) {
        Operation::SwitchClient { target } => assert_eq!(target.serialize(), "dev:proj.0"),
        other => panic!("unexpected operation {:?}", other),
    }
    match select_attachment(false, target) {
        Operation::AttachSession { target } => assert_eq!(target.serialize(), "dev:proj.0"),
        other => panic!("unexpected operation {:?}", other),
    }
}

#[test]
fn lookup_finds_the_first_of_equal_names() {
    let view = Snapshot {
        sessions: vec![
            SessionView { name: "a".to_owned(), windows: vec![] },
            SessionView {
                name: "dev".to_owned(),
                windows: vec![
                    WindowView { name: "w".to_owned(), panes: vec![PaneView { index: 0 }] },
                    WindowView {
                        name: "w".to_owned(),
                        panes: vec![PaneView { index: 0 }, PaneView { index: 1 }],
                    },
                ],
            },
            SessionView { name: "dev".to_owned(), windows: vec![] },
        ],
    };
    assert_eq!(view.find_session("dev").unwrap().windows.len(), 2);
    let found = view.find_window("dev", "w").unwrap();
    assert_eq!(found.pane_count(), 1);
    assert!(found.has_pane(0));
    assert!(!found.has_pane(1));
    assert!(view.find_window("dev", "x").is_none());
    assert!(view.find_window("a", "w").is_none());
    assert!(view.find_window("b", "w").is_none());
}
