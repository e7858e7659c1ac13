//! The production setup, number by number.

use permafrost::{AlkaneId, AlkaneTransfer, Context, Permafrost, PermafrostMessage};

const SLOT: u128 = 365;
const UNDERLYING_BLOCK: u128 = 4;
const UNDERLYING_TX: u128 = 1778;
const PENALTY_BPS: u128 = 1000;
const NAME_U128: u128 = 398215580027291461371216; // "PERMAFROST"
const SYMBOL_U128: u128 = 362174960198; // "FROST"
const INTERVAL: u128 = 144;
const PERIODS: u128 = 365;

fn send(
    vault: &mut Permafrost,
    height: u64,
    cellpack: Vec<u128>,
    incoming: Vec<AlkaneTransfer>,
) -> Vec<u8> {
    let inputs = cellpack[1..].to_vec();
    let message = PermafrostMessage::from_opcode(cellpack[0], &inputs).unwrap();
    let context = Context {
        myself: AlkaneId { block: 4, tx: SLOT },
        incoming_alkanes: incoming,
        height,
    };
    vault.dispatch(message, &context, &[]).unwrap().data
}

fn view(vault: &mut Permafrost, height: u64, cellpack: Vec<u128>) -> Vec<u8> {
    send(vault, height, cellpack, vec![])
}

fn view_u128(vault: &mut Permafrost, height: u64, opcode: u128) -> u128 {
    let data = view(vault, height, vec![opcode]);
    let mut b = [0u8; 16];
    b.copy_from_slice(&data[0..16]);
    u128::from_le_bytes(b)
}

#[test]
fn mainnet_deploy_rehearsal_4_365() {
    let mut h: u64 = 909_001;
    let mut vault = Permafrost::default();
    let setup = vec![
        0,
        UNDERLYING_BLOCK,
        UNDERLYING_TX,
        PENALTY_BPS,
        NAME_U128,
        SYMBOL_U128,
        INTERVAL,
        PERIODS,
    ];
    send(&mut vault, h, setup, vec![]);
    h += 1;

    assert_eq!(view(&mut vault, h, vec![99]), b"PERMAFROST".to_vec());
    assert_eq!(view(&mut vault, h, vec![100]), b"FROST".to_vec());
    assert_eq!(view_u128(&mut vault, h, 103), PENALTY_BPS);
    assert_eq!(view_u128(&mut vault, h, 110), INTERVAL);
    assert_eq!(view_u128(&mut vault, h, 111), PERIODS);
    let und = view(&mut vault, h, vec![104]);
    assert_eq!(und.len(), 32);
    let mut ub = [0u8; 16];
    let mut ut = [0u8; 16];
    ub.copy_from_slice(&und[0..16]);
    ut.copy_from_slice(&und[16..32]);
    assert_eq!(
        (u128::from_le_bytes(ub), u128::from_le_bytes(ut)),
        (UNDERLYING_BLOCK, UNDERLYING_TX)
    );

    // Genesis: the first deposit burns the dead shares and credits L in full.
    let deposit_amount = 100_000_000u128;
    let incoming = vec![AlkaneTransfer {
        id: AlkaneId { block: UNDERLYING_BLOCK, tx: UNDERLYING_TX },
        value: deposit_amount,
    }];
    send(&mut vault, h, vec![1], incoming);
    h += 1;
    assert_eq!(view_u128(&mut vault, h, 101), deposit_amount);
    assert_eq!(view_u128(&mut vault, h, 102), deposit_amount);
}
