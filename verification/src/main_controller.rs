use vstd::prelude::*;

verus! {

/// What the remapper knows of the window manager: the title of the focused
/// window and the class of the focused application, as the window manager
/// last reported them (`None` when it reports nothing).
#[derive(Debug)]
pub struct WMClient {
    pub log_window_changes: bool,
    pub current_window: Option<String>,
    pub current_application: Option<String>,
}

impl WMClient {
    /// A client that knows no window yet.
    pub fn new(log_window_changes: bool) -> (r: WMClient)
        ensures
            r.log_window_changes == log_window_changes,
            r.current_window is None,
            r.current_application is None,
    {
        WMClient { log_window_changes, current_window: None, current_application: None }
    }
}

/// What to do with a command that a remapping launches.
#[derive(Debug)]
pub enum CommandStep {
    /// Launching is not allowed: tell the user and run nothing.
    NotAllowed,
    /// Ask the window manager to run the command; see `after_client_run`.
    AskClient(Vec<String>),
}

/// The strings of a command.
pub open spec fn command_view(command: Seq<String>) -> Seq<Seq<char>> {
    command.map_values(|s: String| s@)
}

/// The command that shows a desktop notification with `title` and, when
/// given, `msg`.
pub open spec fn popup_command(title: Seq<char>, msg: Option<Seq<char>>) -> Seq<Seq<char>> {
    let base = seq!["notify-send"@, "-a"@, "xremap"@, title];
    match msg {
        Some(m) => base.push(m),
        None => base,
    }
}

/// Ties the remapper to the desktop: the window manager client and whether
/// remappings may launch programs.
#[derive(Debug)]
pub struct MainController {
    pub wmclient: WMClient,
    pub allow_launch: bool,
}

impl MainController {
    /// A controller whose client logs window changes when asked to.
    pub fn new(log_window_changes: bool, allow_launch: bool) -> (r: MainController)
        ensures
            r.allow_launch == allow_launch,
            r.wmclient.log_window_changes == log_window_changes,
            r.wmclient.current_window is None,
            r.wmclient.current_application is None,
    {
        MainController { wmclient: WMClient::new(log_window_changes), allow_launch }
    }

    /// The window manager client.
    pub fn wmclient(&mut self) -> (r: &mut WMClient)
        ensures
            *r == old(self).wmclient,
            final(self).wmclient == *final(r),
            final(self).allow_launch == old(self).allow_launch,
    {
        &mut self.wmclient
    }

    /// The first step of running `command`: refuse it when launching is not
    /// allowed, else hand it to the window manager.
    pub fn run_command(&self, command: Vec<String>) -> (r: CommandStep)
        ensures
            r == (if self.allow_launch {
                CommandStep::AskClient(command)
            } else {
                CommandStep::NotAllowed
            }),
    {
        if !self.allow_launch {
            CommandStep::NotAllowed
        } else {
            CommandStep::AskClient(command)
        }
    }

    /// Shows a notification with `title` and, when given, `msg`.
    pub fn show_popup(&self, title: &str, msg: Option<&str>) -> (r: CommandStep)
        ensures
            self.allow_launch ==> (r matches CommandStep::AskClient(c) && command_view(c@) == popup_command(
                title@,
                match msg {
                    Some(m) => Some(m@),
                    None => None,
                },
            )),
            !self.allow_launch ==> r is NotAllowed,
    {
        let mut command: Vec<String> = Vec::new();
        command.push("notify-send".to_owned());
        command.push("-a".to_owned());
        command.push("xremap".to_owned());
        command.push(title.to_owned());
        match msg {
            Some(m) => {
                command.push(m.to_owned());
            },
            None => {},
        }
        proof {
            let v = match msg {
                Some(m) => Some(m@),
                None => None,
            };
            assert(command_view(command@) =~= popup_command(title@, v));
        }
        self.run_command(command)
    }
}

/// What follows the window manager's answer to running `command`: `Some` of
/// the command when it could not run it and the remapper has to start it
/// itself; `None` when it ran it (`Some(true)`) or failed (`None`).
pub fn after_client_run(command: Vec<String>, ran: Option<bool>) -> (r: Option<Vec<String>>)
    ensures
        r == (if ran == Some(false) {
            Some(command)
        } else {
            None::<Vec<String>>
        }),
{
    match ran {
        Some(false) => Some(command),
        _ => None,
    }
}

} // verus!
