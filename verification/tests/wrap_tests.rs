use amm_core::address::{Address, AddressKind};
use amm_core::msg::{Interaction, WrapMsg, WRAP_ACTION};

fn mock_address(le: u8) -> Address {
    Address { kind: AddressKind::Account, id: le as u128 }
}

const WRAP: u32 = 0x17;

#[test]
fn proper_wrap_action_call() {
    let dest = mock_address(30u8);

    let msg = WrapMsg { amount: 1_000_000 };

    let event_group = msg.as_interaction(&dest);

    let test_event_group = Interaction { dest: dest.clone(), action: WRAP, argument: 1_000_000u128 };

    assert_eq!(event_group, test_event_group);
}

#[test]
fn wrap_action_tag_is_fixed() {
    assert_eq!(WRAP_ACTION, 0x17);
    let msg = WrapMsg { amount: 30 };
    let interaction = msg.as_interaction(&mock_address(2));
    assert_eq!(interaction.action, WRAP_ACTION);
    assert_eq!(interaction.argument, 30);
}
