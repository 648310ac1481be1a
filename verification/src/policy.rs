//! Which shell commands may run, and what each kind must be granted first.
//!
//! A command is open, or needs to be confirmed, or is destructive and needs to be allowed
//! as such, or is rejected whatever is granted.

use vstd::prelude::*;

use crate::text;
use crate::unicode;

verus! {

/// What a command must be granted before it runs.
#[derive(Debug, Clone, Copy, PartialEq, Eq, Structural)]
pub enum Tier {
    /// Nothing.
    Open,
    /// `confirm`.
    Confirm,
    /// `allow_destructive`.
    Destructive,
    /// It never runs.
    Rejected,
}

/// Words of commands that need to be confirmed.
pub open spec fn confirm_patterns() -> Seq<Seq<char>> {
    seq![
        "systemctl"@,
        "iptables"@,
        "mount "@,
        "umount "@,
        "kill "@,
        "pkill "@,
        "apt-get install"@,
        "apt-get remove"@,
        "docker rm "@,
        "docker stop "@,
        "chown "@,
        "chmod 7"@,
        "chgrp "@,
        "crontab "@,
        "ufw "@,
        "firewall-cmd"@,
    ]
}

/// Words of destructive commands.
pub open spec fn destructive_patterns() -> Seq<Seq<char>> {
    seq![
        "rm -rf /"@,
        "mkfs"@,
        "of=/dev/"@,
        "useradd -u 0"@,
        "passwd "@,
        "/etc/shadow"@,
        "/etc/passwd"@,
        "/boot/"@,
    ]
}

/// Words of commands that never run.
pub open spec fn rejected_patterns() -> Seq<Seq<char>> {
    seq![
        "dd if="@,
        ":(){ :|:& };:"@,
        "curl | sh"@,
        "curl | bash"@,
        "wget | sh"@,
        "wget | bash"@,
        "> /dev/sda"@,
        "> /dev/sdb"@,
        "> /dev/nvme"@,
        "rm -rf / "@,
        "rm -rf /*"@,
    ]
}

/// Whether one of `patterns` stands in a text.
pub open spec fn has_any(s: Seq<char>, patterns: Seq<Seq<char>>) -> bool {
    exists|i: int| 0 <= i < patterns.len() && text::contains_text(s, #[trigger] patterns[i])
}

/// The tier of a command in lower case: the strictest whose words stand in it.
pub open spec fn tier_of(lower: Seq<char>) -> Tier {
    if has_any(lower, rejected_patterns()) {
        Tier::Rejected
    } else if has_any(lower, destructive_patterns()) {
        Tier::Destructive
    } else if has_any(lower, confirm_patterns()) {
        Tier::Confirm
    } else {
        Tier::Open
    }
}

/// Whether a tier's command may run with what is granted.
pub open spec fn permitted(tier: Tier, confirm: bool, allow_destructive: bool) -> bool {
    match tier {
        Tier::Open => true,
        Tier::Confirm => confirm,
        Tier::Destructive => allow_destructive,
        Tier::Rejected => false,
    }
}

/// What is said of a command that may not run.
pub open spec fn refusal(tier: Tier, command: Seq<char>) -> Seq<char> {
    match tier {
        Tier::Open => command,
        Tier::Confirm => "Command requires confirm=true (Tier 2 safety): "@ + command,
        Tier::Destructive => "Command requires allow_destructive=true (Tier 3 safety): "@ + command,
        Tier::Rejected => "Command unconditionally rejected (catastrophic pattern detected): "@
            + command,
    }
}

/// Whether one of `patterns` stands in a text.
fn has_one(s: &str, patterns: &[&str]) -> (r: bool)
    ensures
        r == exists|i: int|
            0 <= i < patterns@.len() && text::contains_text(s@, (#[trigger] patterns@[i])@),
{
    let mut i: usize = 0;
    while i < patterns.len()
        invariant
            i <= patterns@.len(),
            forall|j: int| 0 <= j < i ==> !text::contains_text(s@, (#[trigger] patterns@[j])@),
        decreases patterns@.len() - i,
    {
        if text::contains(s, patterns[i]) {
            return true;
        }
        i += 1;
    }
    false
}

/// Two lists of the same texts find the same.
proof fn lemma_has_any(s: Seq<char>, listed: Seq<&str>, patterns: Seq<Seq<char>>)
    requires
        listed.len() == patterns.len(),
        forall|i: int| 0 <= i < patterns.len() ==> (#[trigger] listed[i])@ == patterns[i],
    ensures
        has_any(s, patterns) == (exists|i: int|
            0 <= i < listed.len() && text::contains_text(s, (#[trigger] listed[i])@)),
{
    if has_any(s, patterns) {
        let i = choose|i: int|
            0 <= i < patterns.len() && text::contains_text(s, #[trigger] patterns[i]);
        assert(text::contains_text(s, listed[i]@));
    }
    if exists|i: int| 0 <= i < listed.len() && text::contains_text(s, (#[trigger] listed[i])@) {
        let i = choose|i: int|
            0 <= i < listed.len() && text::contains_text(s, (#[trigger] listed[i])@);
        assert(text::contains_text(s, patterns[i]));
    }
}

/// The tier of a command that is in lower case already.
pub fn classify_lowered(lower: &str) -> (r: Tier)
    ensures
        r == tier_of(lower@),
{
    let rejected: [&str; 11] = [
        "dd if=",
        ":(){ :|:& };:",
        "curl | sh",
        "curl | bash",
        "wget | sh",
        "wget | bash",
        "> /dev/sda",
        "> /dev/sdb",
        "> /dev/nvme",
        "rm -rf / ",
        "rm -rf /*",
    ];
    let destructive: [&str; 8] = [
        "rm -rf /",
        "mkfs",
        "of=/dev/",
        "useradd -u 0",
        "passwd ",
        "/etc/shadow",
        "/etc/passwd",
        "/boot/",
    ];
    let confirm: [&str; 16] = [
        "systemctl",
        "iptables",
        "mount ",
        "umount ",
        "kill ",
        "pkill ",
        "apt-get install",
        "apt-get remove",
        "docker rm ",
        "docker stop ",
        "chown ",
        "chmod 7",
        "chgrp ",
        "crontab ",
        "ufw ",
        "firewall-cmd",
    ];
    proof {
        lemma_has_any(lower@, rejected@, rejected_patterns());
        lemma_has_any(lower@, destructive@, destructive_patterns());
        lemma_has_any(lower@, confirm@, confirm_patterns());
    }
    if has_one(lower, &rejected) {
        Tier::Rejected
    } else if has_one(lower, &destructive) {
        Tier::Destructive
    } else if has_one(lower, &confirm) {
        Tier::Confirm
    } else {
        Tier::Open
    }
}

/// Whether catastrophic words stand in a command of ASCII characters, in any letter case.
pub open spec fn is_catastrophic(command: Seq<char>) -> bool {
    unicode::all_ascii(command) && has_any(unicode::ascii_lower(command), rejected_patterns())
}

/// The tier of a command, whatever its letter case.
pub fn classify_command(command: &str) -> (r: Tier)
    ensures
        r == tier_of(unicode::lowercase(command@)),
        unicode::all_ascii(command@) ==> r == tier_of(unicode::ascii_lower(command@)),
{
    classify_lowered(unicode::to_lowercase(command).as_str())
}

/// Whether a command of a known tier may run, or why not.
pub fn check_tier(tier: Tier, command: &str, confirm: bool, allow_destructive: bool) -> (r: Result<
    (),
    String,
>)
    ensures
        match r {
            Ok(_) => permitted(tier, confirm, allow_destructive),
            Err(e) => !permitted(tier, confirm, allow_destructive) && e@ == refusal(tier, command@),
        },
{
    match tier {
        Tier::Open => Ok(()),
        Tier::Confirm => if confirm {
            Ok(())
        } else {
            Err(text::cat2("Command requires confirm=true (Tier 2 safety): ", command))
        },
        Tier::Destructive => if allow_destructive {
            Ok(())
        } else {
            Err(text::cat2("Command requires allow_destructive=true (Tier 3 safety): ", command))
        },
        Tier::Rejected => Err(
            text::cat2(
                "Command unconditionally rejected (catastrophic pattern detected): ",
                command,
            ),
        ),
    }
}

/// Whether a command may run with what is granted, or why not.
pub fn check_command(command: &str, confirm: bool, allow_destructive: bool) -> (r: Result<
    (),
    String,
>)
    ensures
        match r {
            Ok(_) => permitted(
                tier_of(unicode::lowercase(command@)),
                confirm,
                allow_destructive,
            ),
            Err(e) => {
                &&& !permitted(
                    tier_of(unicode::lowercase(command@)),
                    confirm,
                    allow_destructive,
                )
                &&& e@ == refusal(tier_of(unicode::lowercase(command@)), command@)
            },
        },
        is_catastrophic(command@) ==> r is Err,
{
    check_tier(classify_command(command), command, confirm, allow_destructive)
}

/// A command with catastrophic words in it never runs, whatever is granted and whatever
/// else stands around them.
pub proof fn law_catastrophic_never_runs(
    front: Seq<char>,
    pattern: int,
    back: Seq<char>,
    confirm: bool,
    allow_destructive: bool,
)
    requires
        0 <= pattern < rejected_patterns().len(),
    ensures
        tier_of(front + rejected_patterns()[pattern] + back) == Tier::Rejected,
        !permitted(
            tier_of(front + rejected_patterns()[pattern] + back),
            confirm,
            allow_destructive,
        ),
{
    let p = rejected_patterns()[pattern];
    assert(p.subrange(0, p.len() as int) =~= p);
    assert(text::occurs_at(p, p, 0));
    text::lemma_contains_in_whole(front, p, back, p);
    assert(text::contains_text(front + p + back, rejected_patterns()[pattern]));
}

/// Catastrophic words that stand in a command as they are listed make it catastrophic: letters
/// in lower case stay what they are.
pub proof fn law_listed_words_are_catastrophic(command: Seq<char>)
    requires
        unicode::all_ascii(command),
        has_any(command, rejected_patterns()),
    ensures
        is_catastrophic(command),
{
    let i = choose|i: int|
        0 <= i < rejected_patterns().len() && text::contains_text(
            command,
            #[trigger] rejected_patterns()[i],
        );
    let p = rejected_patterns()[i];
    let lower = unicode::ascii_lower(command);
    let at = choose|at: int| text::occurs_at(command, p, at);
    lemma_rejected_are_lower(i);
    assert(lower.subrange(at, at + p.len()) =~= p) by {
        assert forall|j: int| 0 <= j < p.len() implies lower[at + j] == #[trigger] p[j] by {
            assert(command.subrange(at, at + p.len())[j] == p[j]);
            assert(unicode::ascii_lower(p)[j] == p[j]);
        }
    }
    assert(text::occurs_at(lower, p, at));
    assert(text::contains_text(lower, rejected_patterns()[i]));
}

proof fn lemma_rejected_are_lower(i: int)
    requires
        0 <= i < rejected_patterns().len(),
    ensures
        unicode::ascii_lower(rejected_patterns()[i]) == rejected_patterns()[i],
{
    reveal_strlit("dd if=");
    reveal_strlit(":(){ :|:& };:");
    reveal_strlit("curl | sh");
    reveal_strlit("curl | bash");
    reveal_strlit("wget | sh");
    reveal_strlit("wget | bash");
    reveal_strlit("> /dev/sda");
    reveal_strlit("> /dev/sdb");
    reveal_strlit("> /dev/nvme");
    reveal_strlit("rm -rf / ");
    reveal_strlit("rm -rf /*");
    assert(unicode::ascii_lower(rejected_patterns()[i]) =~= rejected_patterns()[i]);
}

/// The strictness of a tier.
pub open spec fn strictness(tier: Tier) -> int {
    match tier {
        Tier::Open => 0,
        Tier::Confirm => 1,
        Tier::Destructive => 2,
        Tier::Rejected => 3,
    }
}

/// Putting a command inside a longer one never makes it less strict.
pub proof fn law_longer_is_no_laxer(front: Seq<char>, middle: Seq<char>, back: Seq<char>)
    ensures
        strictness(tier_of(middle)) <= strictness(tier_of(front + middle + back)),
{
    let whole = front + middle + back;
    assert forall|patterns: Seq<Seq<char>>| #[trigger] has_any(middle, patterns) implies has_any(
        whole,
        patterns,
    ) by {
        let i = choose|i: int|
            0 <= i < patterns.len() && text::contains_text(middle, #[trigger] patterns[i]);
        text::lemma_contains_in_whole(front, middle, back, patterns[i]);
        assert(text::contains_text(whole, patterns[i]));
    }
}

/// Granting more never refuses what ran with less.
pub proof fn law_grants_only_add(
    tier: Tier,
    confirm: bool,
    allow_destructive: bool,
    more_confirm: bool,
    more_allow: bool,
)
    requires
        permitted(tier, confirm, allow_destructive),
    ensures
        permitted(tier, confirm || more_confirm, allow_destructive || more_allow),
{
}

/// Whether a command in lower case holds words that never run.
spec fn says_rejected(lower: Seq<char>) -> bool {
    ||| text::contains_text(lower, "dd if="@)
    ||| text::contains_text(lower, ":(){ :|:& };:"@)
    ||| text::contains_text(lower, "curl | sh"@)
    ||| text::contains_text(lower, "curl | bash"@)
    ||| text::contains_text(lower, "wget | sh"@)
    ||| text::contains_text(lower, "wget | bash"@)
    ||| text::contains_text(lower, "> /dev/sda"@)
    ||| text::contains_text(lower, "> /dev/sdb"@)
    ||| text::contains_text(lower, "> /dev/nvme"@)
    ||| text::contains_text(lower, "rm -rf / "@)
    ||| text::contains_text(lower, "rm -rf /*"@)
}

/// Whether a command in lower case holds destructive words.
spec fn says_destructive(lower: Seq<char>) -> bool {
    ||| text::contains_text(lower, "rm -rf /"@)
    ||| text::contains_text(lower, "mkfs"@)
    ||| text::contains_text(lower, "of=/dev/"@)
    ||| text::contains_text(lower, "useradd -u 0"@)
    ||| text::contains_text(lower, "passwd "@)
    ||| text::contains_text(lower, "/etc/shadow"@)
    ||| text::contains_text(lower, "/etc/passwd"@)
    ||| text::contains_text(lower, "/boot/"@)
}

/// Whether a command in lower case holds words that need to be confirmed.
spec fn says_confirm(lower: Seq<char>) -> bool {
    ||| text::contains_text(lower, "systemctl"@)
    ||| text::contains_text(lower, "iptables"@)
    ||| text::contains_text(lower, "mount "@)
    ||| text::contains_text(lower, "umount "@)
    ||| text::contains_text(lower, "kill "@)
    ||| text::contains_text(lower, "pkill "@)
    ||| text::contains_text(lower, "apt-get install"@)
    ||| text::contains_text(lower, "apt-get remove"@)
    ||| text::contains_text(lower, "docker rm "@)
    ||| text::contains_text(lower, "docker stop "@)
    ||| text::contains_text(lower, "chown "@)
    ||| text::contains_text(lower, "chmod 7"@)
    ||| text::contains_text(lower, "chgrp "@)
    ||| text::contains_text(lower, "crontab "@)
    ||| text::contains_text(lower, "ufw "@)
    ||| text::contains_text(lower, "firewall-cmd"@)
}

/// The tier of a command is that of the strictest words in it: a command with catastrophic words
/// is rejected, one with destructive words and none of those is destructive, one with other
/// dangerous words alone is to be confirmed, and any other is open.
pub proof fn law_words_decide_the_tier(lower: Seq<char>)
    ensures
        (tier_of(lower) == Tier::Rejected) == ({
            ||| text::contains_text(lower, "dd if="@)
            ||| text::contains_text(lower, ":(){ :|:& };:"@)
            ||| text::contains_text(lower, "curl | sh"@)
            ||| text::contains_text(lower, "curl | bash"@)
            ||| text::contains_text(lower, "wget | sh"@)
            ||| text::contains_text(lower, "wget | bash"@)
            ||| text::contains_text(lower, "> /dev/sda"@)
            ||| text::contains_text(lower, "> /dev/sdb"@)
            ||| text::contains_text(lower, "> /dev/nvme"@)
            ||| text::contains_text(lower, "rm -rf / "@)
            ||| text::contains_text(lower, "rm -rf /*"@)
        }),
        (tier_of(lower) == Tier::Destructive) == (tier_of(lower) != Tier::Rejected && ({
            ||| text::contains_text(lower, "rm -rf /"@)
            ||| text::contains_text(lower, "mkfs"@)
            ||| text::contains_text(lower, "of=/dev/"@)
            ||| text::contains_text(lower, "useradd -u 0"@)
            ||| text::contains_text(lower, "passwd "@)
            ||| text::contains_text(lower, "/etc/shadow"@)
            ||| text::contains_text(lower, "/etc/passwd"@)
            ||| text::contains_text(lower, "/boot/"@)
        })),
        (tier_of(lower) == Tier::Confirm) == (tier_of(lower) != Tier::Rejected && tier_of(lower)
            != Tier::Destructive && ({
            ||| text::contains_text(lower, "systemctl"@)
            ||| text::contains_text(lower, "iptables"@)
            ||| text::contains_text(lower, "mount "@)
            ||| text::contains_text(lower, "umount "@)
            ||| text::contains_text(lower, "kill "@)
            ||| text::contains_text(lower, "pkill "@)
            ||| text::contains_text(lower, "apt-get install"@)
            ||| text::contains_text(lower, "apt-get remove"@)
            ||| text::contains_text(lower, "docker rm "@)
            ||| text::contains_text(lower, "docker stop "@)
            ||| text::contains_text(lower, "chown "@)
            ||| text::contains_text(lower, "chmod 7"@)
            ||| text::contains_text(lower, "chgrp "@)
            ||| text::contains_text(lower, "crontab "@)
            ||| text::contains_text(lower, "ufw "@)
            ||| text::contains_text(lower, "firewall-cmd"@)
        })),
{
    assert(rejected_patterns()[0] == "dd if="@);
    assert(rejected_patterns()[1] == ":(){ :|:& };:"@);
    assert(rejected_patterns()[2] == "curl | sh"@);
    assert(rejected_patterns()[3] == "curl | bash"@);
    assert(rejected_patterns()[4] == "wget | sh"@);
    assert(rejected_patterns()[5] == "wget | bash"@);
    assert(rejected_patterns()[6] == "> /dev/sda"@);
    assert(rejected_patterns()[7] == "> /dev/sdb"@);
    assert(rejected_patterns()[8] == "> /dev/nvme"@);
    assert(rejected_patterns()[9] == "rm -rf / "@);
    assert(rejected_patterns()[10] == "rm -rf /*"@);
    assert(destructive_patterns()[0] == "rm -rf /"@);
    assert(destructive_patterns()[1] == "mkfs"@);
    assert(destructive_patterns()[2] == "of=/dev/"@);
    assert(destructive_patterns()[3] == "useradd -u 0"@);
    assert(destructive_patterns()[4] == "passwd "@);
    assert(destructive_patterns()[5] == "/etc/shadow"@);
    assert(destructive_patterns()[6] == "/etc/passwd"@);
    assert(destructive_patterns()[7] == "/boot/"@);
    assert(confirm_patterns()[0] == "systemctl"@);
    assert(confirm_patterns()[1] == "iptables"@);
    assert(confirm_patterns()[2] == "mount "@);
    assert(confirm_patterns()[3] == "umount "@);
    assert(confirm_patterns()[4] == "kill "@);
    assert(confirm_patterns()[5] == "pkill "@);
    assert(confirm_patterns()[6] == "apt-get install"@);
    assert(confirm_patterns()[7] == "apt-get remove"@);
    assert(confirm_patterns()[8] == "docker rm "@);
    assert(confirm_patterns()[9] == "docker stop "@);
    assert(confirm_patterns()[10] == "chown "@);
    assert(confirm_patterns()[11] == "chmod 7"@);
    assert(confirm_patterns()[12] == "chgrp "@);
    assert(confirm_patterns()[13] == "crontab "@);
    assert(confirm_patterns()[14] == "ufw "@);
    assert(confirm_patterns()[15] == "firewall-cmd"@);
    assert(has_any(lower, rejected_patterns()) == says_rejected(lower));
    assert(has_any(lower, destructive_patterns()) == says_destructive(lower));
    assert(has_any(lower, confirm_patterns()) == says_confirm(lower));
}

/// An open command needs nothing, one that is to be confirmed needs the confirmation and nothing
/// else, a destructive one the permission to destroy and nothing else, and a rejected one never
/// runs. What is said of a refused command gives the command and what it needs.
pub proof fn law_each_tier_needs_its_own_grant(
    tier: Tier,
    confirm: bool,
    allow_destructive: bool,
    command: Seq<char>,
)
    ensures
        permitted(tier, confirm, allow_destructive) <==> tier == Tier::Open || (tier
            == Tier::Confirm && confirm) || (tier == Tier::Destructive && allow_destructive),
        refusal(Tier::Confirm, command) == "Command requires confirm=true (Tier 2 safety): "@
            + command,
        refusal(Tier::Destructive, command)
            == "Command requires allow_destructive=true (Tier 3 safety): "@ + command,
        refusal(Tier::Rejected, command)
            == "Command unconditionally rejected (catastrophic pattern detected): "@ + command,
{
}

} // verus!
