use synth_pool::error::PoolError;
use synth_pool::message::SynthPoolMessage;
use synth_pool::pool::{Context, Logic};
use synth_pool::ring_buffer::SliceRingBuffer;
use synth_pool::store::{AssetId, MemoryStorage, Transfer};

fn id(block: u128) -> AssetId {
    AssetId { block, tx: 0 }
}

#[test]
fn decode_checks_opcode_and_arity() {
    assert!(matches!(SynthPoolMessage::decode(7, &vec![]), Err(PoolError::BadParameter)));
    assert!(matches!(SynthPoolMessage::decode(5, &vec![0, 1, 2]), Err(PoolError::BadParameter)));
    assert!(matches!(
        SynthPoolMessage::decode(5, &vec![0, 1, 2, 3]),
        Ok(SynthPoolMessage::Swap { i: 0, j: 1, dx: 2, min_dy: 3 })
    ));
    assert!(matches!(SynthPoolMessage::decode(10, &vec![]), Ok(SynthPoolMessage::ClaimAdminFees)));
    assert!(matches!(SynthPoolMessage::decode(102, &vec![]), Ok(SynthPoolMessage::GetA)));
    assert!(matches!(
        SynthPoolMessage::decode(1, &vec![5, 6, 7]),
        Ok(SynthPoolMessage::AddLiquidity { amounts: [5, 6], min_mint_amount: 7 })
    ));
}

#[test]
fn dispatch_runs_a_session() {
    let mut logic = Logic::new(MemoryStorage::new());
    logic.context = Context::new(id(9), id(50), vec![]);
    let init = SynthPoolMessage::decode(0, &vec![1, 0, 2, 0, 100, 4_000_000, 5_000_000_000, 9, 0]).unwrap();
    logic.dispatch(init).unwrap();
    logic.context = Context::new(
        id(3),
        id(50),
        vec![Transfer { id: id(1), value: 1_000_000 }, Transfer { id: id(2), value: 1_000_000 }],
    );
    let add = SynthPoolMessage::decode(1, &vec![1_000_000, 1_000_000, 1]).unwrap();
    logic.dispatch(add).unwrap();
    assert_eq!(logic.total_supply(), 2_000_000);
    logic.context = Context::new(id(3), id(50), vec![]);
    let a = logic.dispatch(SynthPoolMessage::GetA).unwrap();
    assert_eq!(a.data[0], 100);
    let claim = logic.dispatch(SynthPoolMessage::ClaimAdminFees);
    assert!(matches!(claim, Err(PoolError::Unauthorized)));
}

#[test]
fn ring_buffer_front_and_back() {
    let mut b: SliceRingBuffer<u32> = SliceRingBuffer::new();
    assert!(b.is_empty());
    assert_eq!(b.pop_front(), None);
    b.push_back(1);
    b.push_back(2);
    b.push_back(3);
    assert_eq!(b.len(), 3);
    assert!(b.capacity() >= 3);
    assert_eq!(b.as_slice(), &[1, 2, 3]);
    assert_eq!(b.pop_front(), Some(1));
    b.as_mut_slice()[0] = 20;
    assert_eq!(b.as_slice(), &[20, 3]);
}

#[test]
fn ring_buffer_moves_its_ends() {
    let mut b = SliceRingBuffer::from_iter(vec![1u8, 2, 3, 4, 5]);
    b.move_tail(2);
    assert_eq!(b.as_slice(), &[3, 4, 5]);
    b.move_head(1);
    assert_eq!(b.as_slice(), &[3, 4]);
    b.reserve(10);
    assert_eq!(b.as_slice(), &[3, 4]);
    let c: SliceRingBuffer<u8> = SliceRingBuffer::with_capacity(4);
    assert!(c.is_empty());
}
