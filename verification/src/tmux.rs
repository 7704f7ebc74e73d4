use vstd::prelude::*;

use crate::state::{duplicate_opt, opt_view, Transport, TransportView};
use crate::urlcode::{string_from_utf8_lossy, utf8_lossy};
use crate::text::{
    chars_of, decimal, is_trim_of, lines, lines_of, parse_unsigned, parse_unsigned_exec,
    push_decimal, split_char, split_on, str_eq, string_from_chars, trim,
};

verus! {

/// One tmux pane.
#[derive(Clone, Debug)]
pub struct TmuxPane {
    pub session_name: String,
    pub window_index: u32,
    pub window_name: String,
    pub pane_index: u32,
    pub pane_id: String,
    pub is_active: bool,
}

/// The size of a tmux pane, in character cells.
#[derive(Clone, Debug)]
pub struct TmuxPaneSize {
    pub width: u32,
    pub height: u32,
}

/// Whether `c` is an ASCII digit.
pub open spec fn is_ascii_digit(c: char) -> bool {
    '0' <= c <= '9'
}

/// Whether `s` is a tmux pane ID: `%` followed by one or more digits.
pub open spec fn is_pane_id(s: Seq<char>) -> bool {
    s.len() >= 2 && s[0] == '%' && forall|i: int| 1 <= i < s.len() ==> is_ascii_digit(#[trigger] s[i])
}

fn all_digits_from(v: &Vec<char>, start: usize) -> (r: bool)
    ensures
        r == (forall|i: int| start <= i < v@.len() ==> is_ascii_digit(#[trigger] v@[i])),
{
    let mut i: usize = start;
    while i < v.len()
        invariant
            start <= i,
            i <= v.len() || start > v.len(),
            forall|j: int| start <= j < i && j < v@.len() ==> is_ascii_digit(#[trigger] v@[j]),
        decreases v.len() - i,
    {
        if !('0' <= v[i] && v[i] <= '9') {
            assert(!is_ascii_digit(v@[i as int]));
            return false;
        }
        i = i + 1;
    }
    true
}

/// Checks that `pane_id` is a tmux pane ID (`%` and digits).
pub fn validate_pane_id(pane_id: &str) -> (r: Result<(), String>)
    ensures
        r is Ok <==> is_pane_id(pane_id@),
        r matches Err(e) ==> e@ == "Invalid pane ID format: "@ + pane_id@,
{
    let v = chars_of(pane_id);
    if v.len() >= 2 && v[0] == '%' && all_digits_from(&v, 1) {
        Ok(())
    } else {
        let mut e = "Invalid pane ID format: ".to_string();
        e.append(pane_id);
        Err(e)
    }
}

} // verus!

verus! {

/// Whether `c` is an ASCII letter or digit.
pub open spec fn is_ascii_alnum(c: char) -> bool {
    ('0' <= c <= '9') || ('a' <= c <= 'z') || ('A' <= c <= 'Z')
}

/// Whether every character of `s` is an ASCII letter or digit or one of `extra`.
pub open spec fn only_chars(s: Seq<char>, extra: Seq<char>) -> bool {
    forall|i: int| 0 <= i < s.len() ==> is_ascii_alnum(#[trigger] s[i]) || extra.contains(s[i])
}

fn only_chars_exec(s: &str, extra: &str) -> (r: bool)
    ensures
        r == only_chars(s@, extra@),
{
    let v = chars_of(s);
    let ex = chars_of(extra);
    let mut i: usize = 0;
    while i < v.len()
        invariant
            v@ == s@,
            ex@ == extra@,
            0 <= i <= v.len(),
            forall|j: int| 0 <= j < i ==> is_ascii_alnum(#[trigger] v@[j]) || ex@.contains(v@[j]),
        decreases v.len() - i,
    {
        let c = v[i];
        let alnum = ('0' <= c && c <= '9') || ('a' <= c && c <= 'z') || ('A' <= c && c <= 'Z');
        if !alnum {
            let mut found = false;
            let mut k: usize = 0;
            while k < ex.len()
                invariant
                    0 <= k <= ex.len(),
                    found ==> ex@.contains(c),
                    !found ==> forall|m: int| 0 <= m < k ==> ex@[m] != c,
                decreases ex.len() - k,
            {
                if ex[k] == c {
                    found = true;
                }
                k = k + 1;
            }
            if !found {
                assert(!is_ascii_alnum(v@[i as int]) && !ex@.contains(v@[i as int]));
                return false;
            }
        }
        i = i + 1;
    }
    true
}

/// Why an SSH host name is refused, if it is: empty, starting with `-`, or
/// holding a character other than ASCII letters, digits and `.-:[]_`.
pub open spec fn ssh_host_error(host: Seq<char>) -> Option<Seq<char>> {
    if host.len() == 0 {
        Some("SSH host cannot be empty"@)
    } else if host[0] == '-' {
        Some("SSH host must not start with '-': "@ + host)
    } else if !only_chars(host, ".-:[]_"@) {
        Some("SSH host contains invalid characters: "@ + host)
    } else {
        None
    }
}

/// Why an SSH user name is refused, if it is: empty, starting with `-`, or
/// holding a character other than ASCII letters, digits and `-_.`.
pub open spec fn ssh_user_error(user: Seq<char>) -> Option<Seq<char>> {
    if user.len() == 0 {
        Some("SSH user cannot be empty"@)
    } else if user[0] == '-' {
        Some("SSH user must not start with '-': "@ + user)
    } else if !only_chars(user, "-_."@) {
        Some("SSH user contains invalid characters: "@ + user)
    } else {
        None
    }
}

/// The error of a check, by its message.
pub open spec fn check_view(r: Result<(), String>) -> Option<Seq<char>> {
    match r {
        Ok(_) => None,
        Err(e) => Some(e@),
    }
}

/// Validates an SSH host name (see `ssh_host_error`).
pub fn validate_ssh_host(host: &str) -> (r: Result<(), String>)
    ensures
        check_view(r) == ssh_host_error(host@),
{
    let v = chars_of(host);
    if v.len() == 0 {
        return Err("SSH host cannot be empty".to_string());
    }
    if v[0] == '-' {
        let mut e = "SSH host must not start with '-': ".to_string();
        e.append(host);
        return Err(e);
    }
    if !only_chars_exec(host, ".-:[]_") {
        let mut e = "SSH host contains invalid characters: ".to_string();
        e.append(host);
        return Err(e);
    }
    Ok(())
}

/// Validates an SSH user name (see `ssh_user_error`).
pub fn validate_ssh_user(user: &str) -> (r: Result<(), String>)
    ensures
        check_view(r) == ssh_user_error(user@),
{
    let v = chars_of(user);
    if v.len() == 0 {
        return Err("SSH user cannot be empty".to_string());
    }
    if v[0] == '-' {
        let mut e = "SSH user must not start with '-': ".to_string();
        e.append(user);
        return Err(e);
    }
    if !only_chars_exec(user, "-_.") {
        let mut e = "SSH user contains invalid characters: ".to_string();
        e.append(user);
        return Err(e);
    }
    Ok(())
}

/// The target of an SSH command: `user@host`, or the host alone.
pub open spec fn ssh_target(host: Seq<char>, user: Option<Seq<char>>) -> Seq<char> {
    match user {
        Some(u) => u + "@"@ + host,
        None => host,
    }
}

/// The arguments of an `ssh` command for a remote host, where host and user
/// are valid: batch mode, a five-second connect timeout, the identity file if
/// any, the port, and the target.
pub open spec fn ssh_args(
    host: Seq<char>,
    port: u16,
    user: Option<Seq<char>>,
    identity_file: Option<Seq<char>>,
) -> Seq<Seq<char>> {
    seq!["-o"@, "BatchMode=yes"@, "-o"@, "ConnectTimeout=5"@] + match identity_file {
        Some(k) => seq!["-i"@, k],
        None => Seq::empty(),
    } + seq!["-p"@, decimal(port as nat), ssh_target(host, user)]
}

/// The error that the SSH checks give for a host and user, if any.
pub open spec fn ssh_error(host: Seq<char>, user: Option<Seq<char>>) -> Option<Seq<char>> {
    match ssh_host_error(host) {
        Some(e) => Some(e),
        None => match user {
            Some(u) => ssh_user_error(u),
            None => None,
        },
    }
}

/// A list of strings by their characters.
pub open spec fn strings_view(v: Seq<String>) -> Seq<Seq<char>> {
    v.map_values(|s: String| s@)
}

/// The outcome of a command plan, by its characters.
pub open spec fn args_result_view(r: Result<Vec<String>, String>) -> Result<Seq<Seq<char>>, Seq<char>> {
    match r {
        Ok(v) => Ok(strings_view(v@)),
        Err(e) => Err(e@),
    }
}

fn target_string(host: &str, user: &Option<String>) -> (r: String)
    ensures
        r@ == ssh_target(host@, opt_view(*user)),
{
    match user {
        Some(u) => {
            let mut t = u.clone();
            t.append("@");
            t.append(host);
            t
        },
        None => host.to_string(),
    }
}

/// Builds the arguments of an `ssh` command for a remote transport.
pub fn build_ssh_args(
    host: &str,
    port: u16,
    user: &Option<String>,
    identity_file: &Option<String>,
) -> (r: Result<Vec<String>, String>)
    ensures
        args_result_view(r) == (match ssh_error(host@, opt_view(*user)) {
            Some(e) => Err(e),
            None => Ok(ssh_args(host@, port, opt_view(*user), opt_view(*identity_file))),
        }),
{
    if let Err(e) = validate_ssh_host(host) {
        return Err(e);
    }
    if let Some(u) = user {
        if let Err(e) = validate_ssh_user(u.as_str()) {
            return Err(e);
        }
    }
    let mut args: Vec<String> = Vec::new();
    args.push("-o".to_string());
    args.push("BatchMode=yes".to_string());
    args.push("-o".to_string());
    args.push("ConnectTimeout=5".to_string());
    if let Some(key) = identity_file {
        args.push("-i".to_string());
        args.push(key.clone());
    }
    args.push("-p".to_string());
    let mut p = String::new();
    push_decimal(&mut p, port as u64);
    args.push(p);
    args.push(target_string(host, user));
    proof {
        assert(strings_view(args@) =~= ssh_args(
            host@,
            port,
            opt_view(*user),
            opt_view(*identity_file),
        ));
    }
    Ok(args)
}

/// A command to run: the program and its arguments.
#[derive(Clone, Debug)]
pub struct CommandPlan {
    pub program: String,
    pub args: Vec<String>,
}

/// How a command is run over a transport: directly where local; through
/// `ssh` for SSH and mosh (mosh cannot run commands, so SSH stands in);
/// through `tailscale ssh` where Tailscale is available, else through `ssh`
/// on port 22.
pub open spec fn transport_plan(
    t: TransportView,
    program: Seq<char>,
    args: Seq<Seq<char>>,
    tailscale_available: bool,
) -> Result<(Seq<char>, Seq<Seq<char>>), Seq<char>> {
    match t {
        TransportView::Local => Ok((program, args)),
        TransportView::Ssh { host, port, user, identity_file } => match ssh_error(host, user) {
            Some(e) => Err(e),
            None => Ok(("ssh"@, ssh_args(host, port, user, identity_file) + seq![program] + args)),
        },
        TransportView::Mosh { host, port, user } => match ssh_error(host, user) {
            Some(e) => Err(e),
            None => Ok(("ssh"@, ssh_args(host, port, user, None) + seq![program] + args)),
        },
        TransportView::Tailscale { host, user, identity_file } => if tailscale_available {
            match ssh_error(host, user) {
                Some(e) => Err(e),
                None => Ok(("tailscale"@, seq!["ssh"@, ssh_target(host, user), program] + args)),
            }
        } else {
            match ssh_error(host, user) {
                Some(e) => Err(e),
                None => Ok(("ssh"@, ssh_args(host, 22, user, identity_file) + seq![program] + args)),
            }
        },
    }
}

/// The plan of a command, by its characters.
pub open spec fn plan_view(r: Result<CommandPlan, String>) -> Result<(Seq<char>, Seq<Seq<char>>), Seq<char>> {
    match r {
        Ok(p) => Ok((p.program@, strings_view(p.args@))),
        Err(e) => Err(e@),
    }
}

fn copy_strings(v: &Vec<String>) -> (r: Vec<String>)
    ensures
        strings_view(r@) == strings_view(v@),
{
    let mut r: Vec<String> = Vec::new();
    let mut i: usize = 0;
    while i < v.len()
        invariant
            0 <= i <= v.len(),
            r@.len() == i,
            forall|j: int| 0 <= j < i ==> #[trigger] r@[j]@ == v@[j]@,
        decreases v.len() - i,
    {
        let c = v[i].clone();
        r.push(c);
        i = i + 1;
    }
    proof {
        assert(strings_view(r@) =~= strings_view(v@));
    }
    r
}

fn append_command(args: &mut Vec<String>, program: &str, rest: &Vec<String>)
    ensures
        strings_view(final(args)@) == strings_view(old(args)@) + seq![program@] + strings_view(
            rest@,
        ),
{
    let ghost start = args@;
    args.push(program.to_string());
    let mut i: usize = 0;
    while i < rest.len()
        invariant
            0 <= i <= rest.len(),
            args@.len() == start.len() + 1 + i,
            forall|j: int| 0 <= j < start.len() ==> #[trigger] args@[j] == start[j],
            args@[start.len() as int]@ == program@,
            forall|j: int| 0 <= j < i ==> #[trigger] args@[start.len() + 1 + j]@ == rest@[j]@,
        decreases rest.len() - i,
    {
        let c = rest[i].clone();
        args.push(c);
        i = i + 1;
    }
    proof {
        let lhs = strings_view(args@);
        let rhs = strings_view(start) + seq![program@] + strings_view(rest@);
        assert(lhs.len() == rhs.len());
        assert forall|j: int| 0 <= j < lhs.len() implies lhs[j] == rhs[j] by {
            if j < start.len() {
                assert(args@[j] == start[j]);
            } else if j == start.len() {
            } else {
                let k = j - start.len() - 1;
                assert(args@[start.len() + 1 + k]@ == rest@[k]@);
            }
        }
        assert(lhs =~= rhs);
    }
}

/// Plans a command for a session's transport (see `transport_plan`);
/// `tailscale_available` says whether `tailscale version` succeeded.
pub fn plan_via_transport(
    transport: &Transport,
    program: &str,
    args: &Vec<String>,
    tailscale_available: bool,
) -> (r: Result<CommandPlan, String>)
    ensures
        plan_view(r) == transport_plan(transport@, program@, strings_view(args@), tailscale_available),
{
    match transport {
        Transport::Local {  } => Ok(CommandPlan { program: program.to_string(), args: copy_strings(args) }),
        Transport::Ssh { host, port, user, identity_file } => {
            let mut a = build_ssh_args(host.as_str(), *port, user, identity_file)?;
            append_command(&mut a, program, args);
            Ok(CommandPlan { program: "ssh".to_string(), args: a })
        },
        Transport::Mosh { host, port, user } => {
            let mut a = build_ssh_args(host.as_str(), *port, user, &None)?;
            append_command(&mut a, program, args);
            Ok(CommandPlan { program: "ssh".to_string(), args: a })
        },
        Transport::Tailscale { host, user, identity_file } => {
            if tailscale_available {
                validate_ssh_host(host.as_str())?;
                if let Some(u) = user {
                    validate_ssh_user(u.as_str())?;
                }
                let mut a: Vec<String> = Vec::new();
                a.push("ssh".to_string());
                a.push(target_string(host.as_str(), user));
                append_command(&mut a, program, args);
                proof {
                    assert(strings_view(a@) =~= seq!["ssh"@, ssh_target(host@, opt_view(*user)), program@]
                        + strings_view(args@));
                }
                Ok(CommandPlan { program: "tailscale".to_string(), args: a })
            } else {
                let mut a = build_ssh_args(host.as_str(), 22, user, identity_file)?;
                append_command(&mut a, program, args);
                Ok(CommandPlan { program: "ssh".to_string(), args: a })
            }
        },
    }
}

} // verus!

verus! {

/// The arguments of `tmux capture-pane` for a pane: its whole history, with
/// escape sequences.
pub open spec fn capture_args(pane_id: Seq<char>) -> Seq<Seq<char>> {
    seq!["capture-pane"@, "-p"@, "-e"@, "-S"@, "-"@, "-E"@, "-"@, "-t"@, pane_id]
}

/// The arguments of `tmux send-keys` for a pane.
pub open spec fn send_keys_args_of(pane_id: Seq<char>, keys: Seq<char>) -> Seq<Seq<char>> {
    seq!["send-keys"@, "-t"@, pane_id, keys]
}

/// The arguments of the `tmux display-message` that prints a pane's size.
pub open spec fn size_args(pane_id: Seq<char>) -> Seq<Seq<char>> {
    seq!["display-message"@, "-p"@, "-t"@, pane_id, "#{pane_width}x#{pane_height}"@]
}

/// The arguments of the `tmux list-panes` that lists every pane.
pub open spec fn list_args() -> Seq<Seq<char>> {
    seq![
        "list-panes"@,
        "-a"@,
        "-F"@,
        "#{session_name}|#{window_index}|#{window_name}|#{pane_index}|#{pane_id}|#{pane_active}"@,
    ]
}

/// A list of string literals as strings.
fn strings_of(v: Vec<&str>) -> (r: Vec<String>)
    ensures
        strings_view(r@) == v@.map_values(|s: &str| s@),
{
    let mut r: Vec<String> = Vec::new();
    let mut i: usize = 0;
    while i < v.len()
        invariant
            0 <= i <= v.len(),
            r@.len() == i,
            forall|j: int| 0 <= j < i ==> #[trigger] r@[j]@ == v@[j]@,
        decreases v.len() - i,
    {
        r.push(v[i].to_string());
        i = i + 1;
    }
    proof {
        assert(strings_view(r@) =~= v@.map_values(|s: &str| s@));
    }
    r
}

/// The arguments that capture a pane, once its ID is checked.
pub fn capture_pane_args(pane_id: &str) -> (r: Result<Vec<String>, String>)
    ensures
        args_result_view(r) == (if is_pane_id(pane_id@) {
            Ok(capture_args(pane_id@))
        } else {
            Err("Invalid pane ID format: "@ + pane_id@)
        }),
{
    validate_pane_id(pane_id)?;
    let v = vec!["capture-pane", "-p", "-e", "-S", "-", "-E", "-", "-t", pane_id];
    let r = strings_of(v);
    proof {
        assert(strings_view(r@) =~= capture_args(pane_id@));
    }
    Ok(r)
}

/// The arguments that send keys to a pane, once its ID is checked.
pub fn send_keys_args(pane_id: &str, keys: &str) -> (r: Result<Vec<String>, String>)
    ensures
        args_result_view(r) == (if is_pane_id(pane_id@) {
            Ok(send_keys_args_of(pane_id@, keys@))
        } else {
            Err("Invalid pane ID format: "@ + pane_id@)
        }),
{
    validate_pane_id(pane_id)?;
    let v = vec!["send-keys", "-t", pane_id, keys];
    let r = strings_of(v);
    proof {
        assert(strings_view(r@) =~= send_keys_args_of(pane_id@, keys@));
    }
    Ok(r)
}

/// The arguments that print a pane's size, once its ID is checked.
pub fn pane_size_args(pane_id: &str) -> (r: Result<Vec<String>, String>)
    ensures
        args_result_view(r) == (if is_pane_id(pane_id@) {
            Ok(size_args(pane_id@))
        } else {
            Err("Invalid pane ID format: "@ + pane_id@)
        }),
{
    validate_pane_id(pane_id)?;
    let v = vec!["display-message", "-p", "-t", pane_id, "#{pane_width}x#{pane_height}"];
    let r = strings_of(v);
    proof {
        assert(strings_view(r@) =~= size_args(pane_id@));
    }
    Ok(r)
}

/// The arguments that list every pane.
pub fn list_panes_args() -> (r: Vec<String>)
    ensures
        strings_view(r@) == list_args(),
{
    let v = vec![
        "list-panes",
        "-a",
        "-F",
        "#{session_name}|#{window_index}|#{window_name}|#{pane_index}|#{pane_id}|#{pane_active}",
    ];
    let r = strings_of(v);
    proof {
        assert(strings_view(r@) =~= list_args());
    }
    r
}

/// The model of a `TmuxPane`.
pub struct PaneView {
    pub session_name: Seq<char>,
    pub window_index: u32,
    pub window_name: Seq<char>,
    pub pane_index: u32,
    pub pane_id: Seq<char>,
    pub is_active: bool,
}

impl View for TmuxPane {
    type V = PaneView;

    open spec fn view(&self) -> PaneView {
        PaneView {
            session_name: self.session_name@,
            window_index: self.window_index,
            window_name: self.window_name@,
            pane_index: self.pane_index,
            pane_id: self.pane_id@,
            is_active: self.is_active,
        }
    }
}

/// A number field of the pane list: its value, or 0 where it is none.
pub open spec fn number_or_zero(s: Seq<char>) -> u32 {
    match parse_unsigned(s, u32::MAX as nat) {
        Some(n) => n as u32,
        None => 0,
    }
}

/// The pane that one line of `list_args()` output describes: six fields
/// separated by `|` (more are ignored); no pane for fewer.
pub open spec fn pane_of(line: Seq<char>) -> Option<PaneView> {
    let p = split_on(line, '|');
    if p.len() >= 6 {
        Some(
            PaneView {
                session_name: p[0],
                window_index: number_or_zero(p[1]),
                window_name: p[2],
                pane_index: number_or_zero(p[3]),
                pane_id: p[4],
                is_active: p[5] == "1"@,
            },
        )
    } else {
        None
    }
}

/// The panes that lines describe, in order.
pub open spec fn panes_of(lines: Seq<Seq<char>>) -> Seq<PaneView>
    decreases lines.len(),
{
    if lines.len() == 0 {
        Seq::empty()
    } else {
        let prev = panes_of(lines.drop_last());
        match pane_of(lines.last()) {
            Some(p) => prev.push(p),
            None => prev,
        }
    }
}

fn number_or_zero_exec(s: &str) -> (r: u32)
    ensures
        r == number_or_zero(s@),
{
    match parse_unsigned_exec(s, 4294967295) {
        Some(n) => n as u32,
        None => 0,
    }
}

/// The panes in the output of `tmux list-panes` run with `list_args()`.
pub fn parse_pane_list(output: &str) -> (r: Vec<TmuxPane>)
    ensures
        r@.map_values(|p: TmuxPane| p@) == panes_of(lines_of(output@)),
{
    let ls = lines(output);
    let ghost lv = lines_of(output@);
    let mut r: Vec<TmuxPane> = Vec::new();
    let mut i: usize = 0;
    while i < ls.len()
        invariant
            ls@.map_values(|p: String| p@) == lv,
            0 <= i <= ls.len(),
            r@.map_values(|p: TmuxPane| p@) == panes_of(lv.take(i as int)),
        decreases ls.len() - i,
    {
        let line = &ls[i];
        let parts = split_char(line.as_str(), '|');
        proof {
            assert(lv[i as int] == ls@[i as int]@);
            assert(lv.take(i + 1).drop_last() =~= lv.take(i as int));
            assert(lv.take(i + 1).last() == lv[i as int]);
        }
        let ghost pv = parts@.map_values(|p: String| p@);
        if parts.len() >= 6 {
            proof {
                assert(pv[0] == parts@[0]@);
                assert(pv[1] == parts@[1]@);
                assert(pv[2] == parts@[2]@);
                assert(pv[3] == parts@[3]@);
                assert(pv[4] == parts@[4]@);
                assert(pv[5] == parts@[5]@);
            }
            let pane = TmuxPane {
                session_name: parts[0].clone(),
                window_index: number_or_zero_exec(parts[1].as_str()),
                window_name: parts[2].clone(),
                pane_index: number_or_zero_exec(parts[3].as_str()),
                pane_id: parts[4].clone(),
                is_active: str_eq(parts[5].as_str(), "1"),
            };
            let ghost before = r@.map_values(|p: TmuxPane| p@);
            r.push(pane);
            proof {
                assert(r@.map_values(|p: TmuxPane| p@) =~= before.push(pane@));
            }
        }
        i = i + 1;
    }
    proof {
        assert(lv.take(i as int) =~= lv);
    }
    r
}

/// What `parse_pane_size` makes of the trimmed output `t` of `size_args()`.
pub open spec fn pane_size_of(t: Seq<char>) -> Result<(u32, u32), Seq<char>> {
    let p = split_on(t, 'x');
    if p.len() != 2 {
        Err("Invalid pane size format: "@ + t)
    } else {
        match (parse_unsigned(p[0], u32::MAX as nat), parse_unsigned(p[1], u32::MAX as nat)) {
            (None, _) => Err("Invalid width: "@ + p[0]),
            (Some(_), None) => Err("Invalid height: "@ + p[1]),
            (Some(w), Some(h)) => Ok((w as u32, h as u32)),
        }
    }
}

/// The size of a pane from the output of `tmux display-message` run with
/// `size_args()`: `<width>x<height>` with white space around.
pub fn parse_pane_size(output: &str) -> (r: Result<TmuxPaneSize, String>)
    ensures
        exists|t: Seq<char>|
            is_trim_of(t, output@) && #[trigger] pane_size_of(t) == match r {
                Ok(s) => Ok::<(u32, u32), Seq<char>>((s.width, s.height)),
                Err(e) => Err(e@),
            },
{
    let trimmed = trim(output);
    let parts = split_char(trimmed.as_str(), 'x');
    let ghost pv = parts@.map_values(|p: String| p@);
    let ghost t = trimmed@;
    if parts.len() != 2 {
        let mut e = "Invalid pane size format: ".to_string();
        e.append(trimmed.as_str());
        proof {
            assert(pane_size_of(t) == Err::<(u32, u32), Seq<char>>(e@));
        }
        return Err(e);
    }
    proof {
        assert(pv[0] == parts@[0]@);
        assert(pv[1] == parts@[1]@);
    }
    let width = match parse_unsigned_exec(parts[0].as_str(), 4294967295) {
        Some(w) => w as u32,
        None => {
            let mut e = "Invalid width: ".to_string();
            e.append(parts[0].as_str());
            proof {
                assert(pane_size_of(t) == Err::<(u32, u32), Seq<char>>(e@));
            }
            return Err(e);
        },
    };
    let height = match parse_unsigned_exec(parts[1].as_str(), 4294967295) {
        Some(h) => h as u32,
        None => {
            let mut e = "Invalid height: ".to_string();
            e.append(parts[1].as_str());
            proof {
                assert(pane_size_of(t) == Err::<(u32, u32), Seq<char>>(e@));
            }
            return Err(e);
        },
    };
    proof {
        assert(pane_size_of(t) == Ok::<(u32, u32), Seq<char>>((width, height)));
    }
    Ok(TmuxPaneSize { width, height })
}

} // verus!

verus! {

/// What a finished command gives: its output, read as UTF-8, where it
/// succeeded; else `<label> command failed: ` and its error output, read as
/// UTF-8 and trimmed.
pub fn command_result(label: &str, success: bool, stdout: &[u8], stderr: &[u8]) -> (r: Result<
    String,
    String,
>)
    ensures
        success ==> (r matches Ok(o) && o@ == utf8_lossy(stdout@)),
        !success ==> (r matches Err(e) && exists|t: Seq<char>|
            is_trim_of(t, utf8_lossy(stderr@)) && #[trigger] (label@ + " command failed: "@ + t)
                == e@),
{
    if success {
        Ok(string_from_utf8_lossy(stdout))
    } else {
        let text = string_from_utf8_lossy(stderr);
        let t = trim(text.as_str());
        let mut e = label.to_string();
        e.append(" command failed: ");
        e.append(t.as_str());
        proof {
            assert(is_trim_of(t@, utf8_lossy(stderr@)));
            assert(label@ + " command failed: "@ + t@ == e@);
        }
        Err(e)
    }
}

/// The panes that a run of `tmux list-panes` with `list_args()` gave: its
/// error passed on, or the panes that its output lists (see `panes_of`).
pub fn panes_from_output(output: Result<String, String>) -> (r: Result<Vec<TmuxPane>, String>)
    ensures
        output matches Err(e) ==> (r matches Err(e2) && e2 == e),
        output matches Ok(o) ==> (r matches Ok(v) && v@.map_values(|p: TmuxPane| p@) == panes_of(
            lines_of(o@),
        )),
{
    match output {
        Ok(o) => Ok(parse_pane_list(o.as_str())),
        Err(e) => Err(e),
    }
}

} // verus!

verus! {

/// Over SSH and mosh a command runs through `ssh` with the session's own
/// connection: exactly the arguments that `build_ssh_args` gives for the
/// transport's host, port, user and identity file (none for mosh), so `-p`
/// is followed by the transport's port, then the program and its arguments.
pub proof fn law_remote_plans_use_the_session_connection(
    t: TransportView,
    program: Seq<char>,
    args: Seq<Seq<char>>,
    tailscale_available: bool,
)
    requires
        t is Ssh || t is Mosh,
    ensures
        ({
            let (host, port, user, identity_file) = match t {
                TransportView::Ssh { host, port, user, identity_file } => (
                    host,
                    port,
                    user,
                    identity_file,
                ),
                TransportView::Mosh { host, port, user } => (host, port, user, None),
                _ => (Seq::empty(), 0u16, None, None),
            };
            let plan = transport_plan(t, program, args, tailscale_available);
            let k = match identity_file {
                Some(_) => 6int,
                None => 4int,
            };
            &&& ssh_error(host, user) is None ==> plan == Ok::<(Seq<char>, Seq<Seq<char>>), Seq<char>>(
                ("ssh"@, ssh_args(host, port, user, identity_file) + seq![program] + args),
            )
            &&& ssh_error(host, user) matches Some(e) ==> plan == Err::<(Seq<char>, Seq<Seq<char>>), Seq<char>>(e)
            &&& plan matches Ok((prog, a)) ==> {
                &&& a[k] == "-p"@
                &&& a[k + 1] == decimal(port as nat)
                &&& a[k + 2] == ssh_target(host, user)
                &&& a.skip(k + 3) == seq![program] + args
            }
        }),
{
    match t {
        TransportView::Ssh { host, port, user, identity_file } => {
            let a = ssh_args(host, port, user, identity_file) + seq![program] + args;
            let k: int = if identity_file is Some { 6 } else { 4 };
            assert(a.skip(k + 3) =~= seq![program] + args);
        },
        TransportView::Mosh { host, port, user } => {
            let a = ssh_args(host, port, user, None) + seq![program] + args;
            assert(a.skip(7) =~= seq![program] + args);
        },
        _ => {},
    }
}

} // verus!
