//! The per-user Scheduled Task that starts Footman at logon.
//!
//! A `Run` registry value would have been one line. It was rejected for what
//! it cannot say: Windows may defer it, the user can turn it off from Task
//! Manager's Startup tab without knowing what they turned off, and nothing
//! brings it back if it exits. Every one of those is a setting below.
//!
//! Registration goes through `schtasks` with an XML definition rather than
//! through its flags, because the flags cannot express restart-on-failure or
//! an unlimited run time. The definition is therefore text Footman builds, and
//! it is built here; running `schtasks` is the Shell's.

use vstd::prelude::*;

use crate::chord::trim_chars;
use crate::text::{chars_of, concat, string_from, trim};

verus! {

/// What the task is called in the scheduler, and so what Uninstall looks for.
pub const NAME: &'static str = "Footman";

/// How long after logon to start.
///
/// The tray icon cannot be created before the shell is ready to hold it, and
/// a user who has just logged in is not reaching for a Chord in the first few
/// seconds anyway.
pub const DELAY: &'static str = "PT15S";

/// The definition up to the task's name.
pub const OPENING: &'static str = r#"<?xml version="1.0" encoding="UTF-16"?>
<Task version="1.4" xmlns="http://schemas.microsoft.com/windows/2004/02/mit/task">
  <RegistrationInfo>
    <Description>Starts Footman, the hyper key launcher, at logon.</Description>
    <URI>\"#;

/// Between the task's name and the account the logon trigger waits for.
pub const BEFORE_TRIGGER_USER: &'static str = r#"</URI>
  </RegistrationInfo>
  <Triggers>
    <LogonTrigger>
      <Enabled>true</Enabled>
      <UserId>"#;

/// Between that account and the delay.
pub const BEFORE_DELAY: &'static str = r#"</UserId>
      <Delay>"#;

/// Between the delay and the account the task runs as.
pub const BEFORE_PRINCIPAL: &'static str = r#"</Delay>
    </LogonTrigger>
  </Triggers>
  <Principals>
    <Principal id="Author">
      <UserId>"#;

/// The settings, up to the command the task runs: ignore a second copy, keep
/// running on battery, no time limit, restart on failure.
pub const BEFORE_COMMAND: &'static str = r#"</UserId>
      <LogonType>InteractiveToken</LogonType>
      <RunLevel>LeastPrivilege</RunLevel>
    </Principal>
  </Principals>
  <Settings>
    <MultipleInstancesPolicy>IgnoreNew</MultipleInstancesPolicy>
    <DisallowStartIfOnBatteries>false</DisallowStartIfOnBatteries>
    <StopIfGoingOnBatteries>false</StopIfGoingOnBatteries>
    <AllowHardTerminate>true</AllowHardTerminate>
    <StartWhenAvailable>true</StartWhenAvailable>
    <RunOnlyIfNetworkAvailable>false</RunOnlyIfNetworkAvailable>
    <IdleSettings>
      <StopOnIdleEnd>false</StopOnIdleEnd>
      <RestartOnIdle>false</RestartOnIdle>
    </IdleSettings>
    <AllowStartOnDemand>true</AllowStartOnDemand>
    <Enabled>true</Enabled>
    <Hidden>false</Hidden>
    <RunOnlyIfIdle>false</RunOnlyIfIdle>
    <DisallowStartOnRemoteAppSession>false</DisallowStartOnRemoteAppSession>
    <UseUnifiedSchedulingEngine>true</UseUnifiedSchedulingEngine>
    <WakeToRun>false</WakeToRun>
    <ExecutionTimeLimit>PT0S</ExecutionTimeLimit>
    <Priority>7</Priority>
    <RestartOnFailure>
      <Interval>PT1M</Interval>
      <Count>3</Count>
    </RestartOnFailure>
  </Settings>
  <Actions Context="Author">
    <Exec>
      <Command>"#;

/// The rest of the definition.
pub const CLOSING: &'static str = r#"</Command>
    </Exec>
  </Actions>
</Task>
"#;

/// How one character is written in XML text.
pub open spec fn escaped_char(c: char) -> Seq<char> {
    if c == '&' {
        seq!['&', 'a', 'm', 'p', ';']
    } else if c == '<' {
        seq!['&', 'l', 't', ';']
    } else if c == '>' {
        seq!['&', 'g', 't', ';']
    } else if c == '"' {
        seq!['&', 'q', 'u', 'o', 't', ';']
    } else {
        seq![c]
    }
}

/// A text as XML text: every `&`, `<`, `>` and `"` replaced by its entity.
pub open spec fn escaped(s: Seq<char>) -> Seq<char>
    decreases s.len(),
{
    if s.len() == 0 {
        Seq::empty()
    } else {
        escaped(s.drop_last()) + escaped_char(s.last())
    }
}

/// XML-escapes text going into the definition.
///
/// Not decoration: a Windows account name may contain an ampersand, and the
/// path to the executable runs through it. Left raw, the definition stops
/// being XML and `schtasks` refuses all of it for a reason that points nowhere
/// near the user's name.
pub fn escape(text: &str) -> (xml: String)
    ensures
        xml@ == escaped(text@),
{
    let chars = chars_of(text);
    let mut xml = String::new();
    let mut i: usize = 0;
    while i < chars.len()
        invariant
            chars@ == text@,
            i <= chars@.len(),
            xml@ == escaped(chars@.subrange(0, i as int)),
        decreases chars.len() - i,
    {
        let c = chars[i];
        proof {
            reveal_strlit("&amp;");
            reveal_strlit("&lt;");
            reveal_strlit("&gt;");
            reveal_strlit("&quot;");
        }
        if c == '&' {
            xml.append("&amp;");
        } else if c == '<' {
            xml.append("&lt;");
        } else if c == '>' {
            xml.append("&gt;");
        } else if c == '"' {
            xml.append("&quot;");
        } else {
            crate::text::push_char(&mut xml, c);
        }
        assert(chars@.subrange(0, i + 1).drop_last() =~= chars@.subrange(0, i as int));
        i = i + 1;
    }
    assert(chars@.subrange(0, chars@.len() as int) =~= text@);
    xml
}

/// Escaped text holds no raw `<`, `>` or `"`: it cannot open, close or end an
/// element or an attribute of the definition it is written into.
pub proof fn lemma_escaped_holds_no_markup(s: Seq<char>)
    ensures
        forall|i: int|
            0 <= i < escaped(s).len() ==> #[trigger] escaped(s)[i] != '<' && escaped(s)[i] != '>'
                && escaped(s)[i] != '"',
    decreases s.len(),
{
    if s.len() > 0 {
        lemma_escaped_holds_no_markup(s.drop_last());
        let a = escaped(s.drop_last());
        let b = escaped_char(s.last());
        assert forall|i: int| 0 <= i < escaped(s).len() implies #[trigger] escaped(s)[i] != '<'
            && escaped(s)[i] != '>' && escaped(s)[i] != '"' by {
            if i >= a.len() {
                assert(escaped(s)[i] == b[i - a.len()]);
            } else {
                assert(escaped(s)[i] == a[i]);
            }
        }
    }
}

/// The definition that starts `executable` at the logon of `user`.
pub open spec fn definition_text(executable: Seq<char>, user: Seq<char>) -> Seq<char> {
    OPENING@ + NAME@ + BEFORE_TRIGGER_USER@ + escaped(user) + BEFORE_DELAY@ + DELAY@
        + BEFORE_PRINCIPAL@ + escaped(user) + BEFORE_COMMAND@ + escaped(executable) + CLOSING@
}

/// The definition to register.
///
/// `user` is the account the task runs as and belongs to, in the form
/// `DOMAIN\name`: without it `schtasks` cannot tell whose logon to wait for.
pub fn definition(executable: &str, user: &str) -> (xml: String)
    ensures
        xml@ == definition_text(executable@, user@),
{
    let executable = escape(executable);
    let user = escape(user);
    let mut xml = String::from_str(OPENING);
    xml.append(NAME);
    xml.append(BEFORE_TRIGGER_USER);
    xml.append(user.as_str());
    xml.append(BEFORE_DELAY);
    xml.append(DELAY);
    xml.append(BEFORE_PRINCIPAL);
    xml.append(user.as_str());
    xml.append(BEFORE_COMMAND);
    xml.append(executable.as_str());
    xml.append(CLOSING);
    xml
}

/// The texts of a list of strings.
pub open spec fn texts(v: Seq<String>) -> Seq<Seq<char>> {
    v.map_values(|s: String| s@)
}

/// Arguments that register the task, replacing any earlier one.
///
/// `/F` so that registering twice replaces rather than fails: turning
/// autostart off and on again, or installing over an older copy, must not
/// depend on the user having removed the old task first.
pub fn create(xml: &str) -> (arguments: Vec<String>)
    ensures
        texts(arguments@) == seq!["/Create"@, "/TN"@, NAME@, "/XML"@, xml@, "/F"@],
{
    let arguments = vec![
        String::from_str("/Create"),
        String::from_str("/TN"),
        String::from_str(NAME),
        String::from_str("/XML"),
        String::from_str(xml),
        String::from_str("/F"),
    ];
    assert(texts(arguments@) =~= seq!["/Create"@, "/TN"@, NAME@, "/XML"@, xml@, "/F"@]);
    arguments
}

/// Arguments that remove the task.
pub fn delete() -> (arguments: Vec<String>)
    ensures
        texts(arguments@) == seq!["/Delete"@, "/TN"@, NAME@, "/F"@],
{
    let arguments = vec![
        String::from_str("/Delete"),
        String::from_str("/TN"),
        String::from_str(NAME),
        String::from_str("/F"),
    ];
    assert(texts(arguments@) =~= seq!["/Delete"@, "/TN"@, NAME@, "/F"@]);
    arguments
}

/// Arguments that ask whether the task is registered.
pub fn query() -> (arguments: Vec<String>)
    ensures
        texts(arguments@) == seq!["/Query"@, "/TN"@, NAME@],
{
    let arguments = vec![String::from_str("/Query"), String::from_str("/TN"), String::from_str(NAME)];
    assert(texts(arguments@) =~= seq!["/Query"@, "/TN"@, NAME@]);
    arguments
}

/// The account the task belongs to, as the scheduler names accounts:
/// `DOMAIN\name` where Windows names a domain, the bare name where it does not.
pub open spec fn account_name(domain: Option<Seq<char>>, user: Seq<char>) -> Seq<char> {
    match domain {
        Some(d) => if d.len() > 0 {
            d + "\\"@ + user
        } else {
            user
        },
        None => user,
    }
}

/// The account the task belongs to, from what Windows says of the user's
/// domain (if anything) and name.
pub fn account(domain: Option<&str>, user: &str) -> (name: String)
    ensures
        name@ == account_name(
            match domain {
                Some(d) => Some(d@),
                None => None,
            },
            user@,
        ),
{
    match domain {
        Some(d) => {
            if d.unicode_len() > 0 {
                let mut name = concat(d, "\\");
                name.append(user);
                name
            } else {
                String::from_str(user)
            }
        },
        None => String::from_str(user),
    }
}

/// The UTF-16 code units of a character.
pub open spec fn utf16_units(c: char) -> Seq<int> {
    let v = c as u32;
    if v < 0x10000 {
        seq![v as int]
    } else {
        seq![0xD800 + (v - 0x10000) / 1024, 0xDC00 + (v - 0x10000) % 1024]
    }
}

/// A code unit, least significant byte first.
pub open spec fn le_bytes(unit: int) -> Seq<u8> {
    seq![(unit % 256) as u8, (unit / 256) as u8]
}

/// The bytes of a character in UTF-16, little-endian.
pub open spec fn char_bytes(c: char) -> Seq<u8> {
    let units = utf16_units(c);
    if units.len() == 1 {
        le_bytes(units[0])
    } else {
        le_bytes(units[0]) + le_bytes(units[1])
    }
}

/// A text in UTF-16, little-endian.
pub open spec fn utf16_le(s: Seq<char>) -> Seq<u8>
    decreases s.len(),
{
    if s.len() == 0 {
        Seq::empty()
    } else {
        utf16_le(s.drop_last()) + char_bytes(s.last())
    }
}

/// What is written to the file `schtasks` reads: the byte order mark, then
/// the definition in UTF-16, little-endian.
pub open spec fn definition_file(definition: Seq<char>) -> Seq<u8> {
    seq![0xFFu8, 0xFEu8] + utf16_le(definition)
}

/// The bytes of the file handed to `schtasks`, which reads an XML definition
/// only as UTF-16 and says so with an error that blames the XML rather than
/// its encoding.
pub fn definition_bytes(definition: &str) -> (bytes: Vec<u8>)
    ensures
        bytes@ == definition_file(definition@),
{
    let chars = chars_of(definition);
    let mut bytes: Vec<u8> = Vec::new();
    bytes.push(0xFF);
    bytes.push(0xFE);
    let mut i: usize = 0;
    while i < chars.len()
        invariant
            chars@ == definition@,
            i <= chars@.len(),
            bytes@ == seq![0xFFu8, 0xFEu8] + utf16_le(chars@.subrange(0, i as int)),
        decreases chars.len() - i,
    {
        let c = chars[i];
        let v = c as u32;
        let ghost before = bytes@;
        if v < 0x10000 {
            bytes.push((v % 256) as u8);
            bytes.push((v / 256) as u8);
            assert(bytes@ =~= before + char_bytes(c));
        } else {
            let high = 0xD800 + (v - 0x10000) / 1024;
            let low = 0xDC00 + (v - 0x10000) % 1024;
            bytes.push((high % 256) as u8);
            bytes.push((high / 256) as u8);
            bytes.push((low % 256) as u8);
            bytes.push((low / 256) as u8);
            assert(bytes@ =~= before + char_bytes(c));
        }
        assert(chars@.subrange(0, i + 1).last() == c);
        assert(chars@.subrange(0, i + 1).drop_last() =~= chars@.subrange(0, i as int));
        assert(bytes@ =~= seq![0xFFu8, 0xFEu8] + utf16_le(chars@.subrange(0, i + 1)));
        i = i + 1;
    }
    assert(chars@.subrange(0, chars@.len() as int) =~= definition@);
    bytes
}

/// What the user is told when `schtasks` refuses: its own explanation from
/// standard error, trimmed, or, when it gave none, its exit status.
pub open spec fn refusal_message(complaint: Seq<char>, status: Seq<char>) -> Seq<char> {
    if trim(complaint).len() == 0 {
        "schtasks refused: "@ + status
    } else {
        trim(complaint)
    }
}

/// Why `schtasks` failed, from what it wrote to standard error and how it
/// exited. Its explanations are the useful half of any failure here: a task
/// name that does not exist, a definition it would not read.
pub fn refusal(complaint: &str, status: &str) -> (message: String)
    ensures
        message@ == refusal_message(complaint@, status@),
{
    let trimmed = trim_chars(&chars_of(complaint));
    if trimmed.len() == 0 {
        concat("schtasks refused: ", status)
    } else {
        string_from(&trimmed)
    }
}

/// What removing the task runs: `schtasks` with the delete arguments if the
/// task is registered, and nothing at all if it is not, which already
/// succeeds.
pub fn unregistering(registered: bool) -> (arguments: Option<Vec<String>>)
    ensures
        match arguments {
            Some(a) => registered && texts(a@) == seq!["/Delete"@, "/TN"@, NAME@, "/F"@],
            None => !registered,
        },
{
    if registered {
        Some(delete())
    } else {
        None
    }
}

} // verus!
