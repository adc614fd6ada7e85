use vex::{DashState, DashTrigger};

#[test]
fn bank_charge_spends_itself_not_the_cooldown() {
    let mut dash = DashState::new();
    // Granted while ready: banked as an extra charge.
    assert!(!dash.grant(true));
    assert!(dash.extra_dash);
    assert_eq!(dash.trigger(true, true, true), DashTrigger::Banked);
    assert!(dash.just_dashed());
    assert!(!dash.extra_dash, "charge consumed");
    // The very next press dashes again — and that one cools down.
    assert_eq!(dash.trigger(true, true, true), DashTrigger::Cooldown);
    assert!(dash.just_dashed(), "second dash fired immediately");
    assert!(!dash.just_dashed(), "reported once");
}

#[test]
fn grant_while_cooling_refills() {
    let mut dash = DashState::new();
    assert_eq!(dash.trigger(true, true, true), DashTrigger::Cooldown);
    assert!(dash.grant(false), "finish the recharge");
    assert!(!dash.extra_dash, "no bank while recharging");
}

#[test]
fn no_dash_when_disabled_cooling_or_idle() {
    let mut dash = DashState::new();
    assert_eq!(dash.trigger(false, true, true), DashTrigger::Idle);
    assert_eq!(dash.trigger(true, false, true), DashTrigger::Idle);
    assert_eq!(dash.trigger(true, true, false), DashTrigger::Idle);
    assert!(!dash.just_dashed());
}
