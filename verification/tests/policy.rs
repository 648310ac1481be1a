use driver::policy;
use driver::policy::Tier;

#[test]
fn tiers() {
    for command in ["ls -la", "", "rm -r build", "mounted", "chmod 644 x"] {
        assert_eq!(policy::classify_command(command), Tier::Open, "{}", command);
    }
    for command in ["systemctl restart x", "sudo kill 12", "chmod 755 x", "docker stop web"] {
        assert_eq!(policy::classify_command(command), Tier::Confirm, "{}", command);
    }
    for command in ["rm -rf /", "rm -rf /home", "mkfs.ext4 /dev/sdz", "cat /etc/shadow"] {
        assert_eq!(policy::classify_command(command), Tier::Destructive, "{}", command);
    }
    for command in ["rm -rf /*", "rm -rf / --x", "dd if=/dev/zero", ":(){ :|:& };:", "echo > /dev/sda"] {
        assert_eq!(policy::classify_command(command), Tier::Rejected, "{}", command);
    }
}

#[test]
fn case_does_not_matter() {
    assert_eq!(policy::classify_command("SYSTEMCTL stop x"), Tier::Confirm);
    assert_eq!(policy::classify_command("RM -RF /*"), Tier::Rejected);
}

#[test]
fn every_tier_asks_for_its_own_grant() {
    assert_eq!(policy::check_command("ls", false, false), Ok(()));
    assert_eq!(
        policy::check_command("UFW status", false, true),
        Err("Command requires confirm=true (Tier 2 safety): UFW status".to_string())
    );
    assert_eq!(policy::check_command("ufw status", true, false), Ok(()));
    assert_eq!(
        policy::check_command("mkfs", true, false),
        Err("Command requires allow_destructive=true (Tier 3 safety): mkfs".to_string())
    );
    assert_eq!(policy::check_command("mkfs", false, true), Ok(()));
    assert_eq!(
        policy::check_command("dd if=x", true, true),
        Err("Command unconditionally rejected (catastrophic pattern detected): dd if=x".to_string())
    );
    assert_eq!(policy::check_tier(Tier::Open, "x", false, false), Ok(()));
}

#[test]
fn more_words_are_no_laxer() {
    assert_eq!(policy::classify_command("kill 1"), Tier::Confirm);
    assert_eq!(policy::classify_command("kill 1; mkfs"), Tier::Destructive);
    assert_eq!(policy::classify_command("kill 1; mkfs; dd if=x"), Tier::Rejected);
}
