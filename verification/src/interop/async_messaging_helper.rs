//! The helper that also runs a LanguageTool server of its own: which of its tasks run, how a
//! restart replaces them, and the command line that starts the server.
use vstd::prelude::*;
use vstd::string::*;

verus! {

/// The directory in which the LanguageTool server is started.
pub open spec fn lang_server_dir() -> Seq<char> {
    "/home/dimkar/Downloads/LanguageTool-6.9-SNAPSHOT"@
}

/// The arguments of `java` that start a LanguageTool server on `port`.
pub open spec fn lang_server_args(port: Seq<char>) -> Seq<Seq<char>> {
    seq![
        "-cp"@,
        "languagetool-server.jar"@,
        "org.languagetool.server.HTTPServer"@,
        "--config"@,
        "server.properties"@,
        "--port"@,
        port,
        "--allow-origin"@,
    ]
}

/// A program to start: its name, its arguments and the directory to start it in.
pub struct LaunchSpec {
    pub program: String,
    pub args: Vec<String>,
    pub dir: String,
}

/// The command line that starts a LanguageTool server listening on `port`.
pub fn lang_server_command(port: &str) -> (c: LaunchSpec)
    ensures
        c.program@ == "java"@,
        c.args@.map_values(|a: String| a@) == lang_server_args(port@),
        c.dir@ == lang_server_dir(),
{
    let mut args: Vec<String> = Vec::new();
    args.push(String::from_str("-cp"));
    args.push(String::from_str("languagetool-server.jar"));
    args.push(String::from_str("org.languagetool.server.HTTPServer"));
    args.push(String::from_str("--config"));
    args.push(String::from_str("server.properties"));
    args.push(String::from_str("--port"));
    args.push(String::from_str(port));
    args.push(String::from_str("--allow-origin"));
    assert(args@.map_values(|a: String| a@) =~= lang_server_args(port@));
    LaunchSpec {
        program: String::from_str("java"),
        args,
        dir: String::from_str("/home/dimkar/Downloads/LanguageTool-6.9-SNAPSHOT"),
    }
}

/// A task of the helper for the driver to start or stop.
pub enum HelperCommand {
    /// Kill the running LanguageTool server.
    StopServer,
    /// Abort the running checking worker.
    AbortWorker,
    /// Start a checking worker that asks the server on this port.
    StartWorker(String),
    /// Start a LanguageTool server on this port.
    StartServer(String),
}

/// A command as plain values.
pub enum CommandView {
    StopServer,
    AbortWorker,
    StartWorker(Seq<char>),
    StartServer(Seq<char>),
}

impl View for HelperCommand {
    type V = CommandView;

    open spec fn view(&self) -> CommandView {
        match self {
            HelperCommand::StopServer => CommandView::StopServer,
            HelperCommand::AbortWorker => CommandView::AbortWorker,
            HelperCommand::StartWorker(p) => CommandView::StartWorker(p@),
            HelperCommand::StartServer(p) => CommandView::StartServer(p@),
        }
    }
}

/// The views of a list of commands.
pub open spec fn command_views(cs: Seq<HelperCommand>) -> Seq<CommandView> {
    cs.map_values(|c: HelperCommand| c@)
}

/// `c` when `b` holds, else nothing.
pub open spec fn command_if(b: bool, c: CommandView) -> Seq<CommandView> {
    if b {
        seq![c]
    } else {
        Seq::empty()
    }
}

/// Which tasks of the helper run.
pub struct AsyncMessagingHelperRust {
    pub server_running: bool,
    pub worker_running: bool,
}

impl AsyncMessagingHelperRust {
    /// A helper with nothing running.
    pub fn new() -> (h: Self)
        ensures
            !h.server_running,
            !h.worker_running,
    {
        AsyncMessagingHelperRust { server_running: false, worker_running: false }
    }

    /// Starts a checking worker for the server on `port`; a worker that ran before is not
    /// stopped.
    pub fn start_async_worker(&mut self, port: &str) -> (c: HelperCommand)
        ensures
            c@ == CommandView::StartWorker(port@),
            final(self).worker_running,
            final(self).server_running == old(self).server_running,
    {
        self.worker_running = true;
        HelperCommand::StartWorker(String::from_str(port))
    }

    /// Stops the server and the worker that run, starts a new worker for `port`, and a new
    /// server on `port` where the server is `embeded`.
    pub fn restart_lang_server(&mut self, embeded: bool, port: &str) -> (cs: Vec<HelperCommand>)
        ensures
            command_views(cs@) == command_if(old(self).server_running, CommandView::StopServer) + command_if(
                old(self).worker_running,
                CommandView::AbortWorker,
            ) + seq![CommandView::StartWorker(port@)] + command_if(
                embeded,
                CommandView::StartServer(port@),
            ),
            final(self).worker_running,
            final(self).server_running == embeded,
    {
        let mut cs: Vec<HelperCommand> = Vec::new();
        if self.server_running {
            cs.push(HelperCommand::StopServer);
            self.server_running = false;
        }
        if self.worker_running {
            cs.push(HelperCommand::AbortWorker);
            self.worker_running = false;
        }
        let start = self.start_async_worker(port);
        cs.push(start);
        if embeded {
            cs.push(HelperCommand::StartServer(String::from_str(port)));
            self.server_running = true;
        }
        assert(command_views(cs@) =~= command_if(old(self).server_running, CommandView::StopServer)
            + command_if(old(self).worker_running, CommandView::AbortWorker) + seq![
            CommandView::StartWorker(port@)] + command_if(embeded, CommandView::StartServer(port@)));
        cs
    }

    /// What dropping the helper stops: the worker, then the server.
    pub fn shutdown(&mut self) -> (cs: Vec<HelperCommand>)
        ensures
            command_views(cs@) == command_if(old(self).worker_running, CommandView::AbortWorker) + command_if(
                old(self).server_running,
                CommandView::StopServer,
            ),
            !final(self).worker_running,
            !final(self).server_running,
    {
        let mut cs: Vec<HelperCommand> = Vec::new();
        if self.worker_running {
            cs.push(HelperCommand::AbortWorker);
            self.worker_running = false;
        }
        if self.server_running {
            cs.push(HelperCommand::StopServer);
            self.server_running = false;
        }
        assert(command_views(cs@) =~= command_if(old(self).worker_running, CommandView::AbortWorker)
            + command_if(old(self).server_running, CommandView::StopServer));
        cs
    }
}

} // verus!
