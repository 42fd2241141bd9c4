use snap_coin::crypto::keys::Public;
use snap_coin::economics::{calculate_dev_fee, get_block_reward};
use snap_coin_miner::rewards::{miner_key, miner_reward};

#[test]
fn reward_of_the_first_blocks() {
    assert_eq!(miner_reward(0), 9_800_000_000);
    assert_eq!(miner_reward(1), 9_800_000_000);
    assert_eq!(miner_reward(1_000_000), 9_800_000_000);
    assert_eq!(miner_reward(1_000_001), 4_900_000_000);
}

#[test]
fn reward_never_vanishes() {
    assert_eq!(miner_reward(34_000_001), 1);
    assert_eq!(miner_reward(64_000_000), 1);
}

#[test]
fn reward_and_fee_make_up_the_whole() {
    for halvings in 0..64usize {
        let height = halvings * 1_000_000;
        let whole = get_block_reward(height);
        assert_eq!(miner_reward(height + 1) + calculate_dev_fee(whole), whole);
        assert_eq!(whole, (10_000_000_000u64 >> halvings).max(1));
    }
}

#[test]
fn the_fee_is_two_percent_rounded_down() {
    for reward in 0..10_000u64 {
        assert_eq!(calculate_dev_fee(reward), reward / 50);
    }
    for shift in 0..50u32 {
        for offset in 0..60u64 {
            let reward = (1u64 << shift) + offset;
            if reward < 1 << 50 {
                assert_eq!(calculate_dev_fee(reward), reward / 50);
                let below = reward.saturating_sub(2 * offset + 1);
                assert_eq!(calculate_dev_fee(below), below / 50);
            }
        }
    }
    assert_eq!(calculate_dev_fee((1 << 50) - 1), ((1u64 << 50) - 1) / 50);
    assert!(calculate_dev_fee(u64::MAX) <= u64::MAX / 49);
}

#[test]
fn keys_are_read_in_base_36() {
    let mut ten = [0u8; 32];
    ten[31] = 36;
    assert_eq!(miner_key("10"), Some(ten));
    assert_eq!(miner_key("+10"), Some(ten));
    assert_eq!(miner_key("1_0"), Some(ten));
    let mut zed = [0u8; 32];
    zed[31] = 35;
    assert_eq!(miner_key("z"), Some(zed));
    assert_eq!(miner_key("Z"), Some(zed));
    assert_eq!(miner_key("0"), Some([0; 32]));
}

#[test]
fn what_is_no_key_is_refused() {
    for text in ["", "+", "++1", "_1", "-1", "1 0", "<your public wallet address>", "é"] {
        assert_eq!(miner_key(text), None);
    }
}

#[test]
fn keys_that_are_too_large_are_refused() {
    let largest = Public::new_from_buf(&[255; 32]).dump_base36();
    assert_eq!(miner_key(&largest), Some([255; 32]));
    assert_eq!(miner_key(&format!("{}0", largest)), None);
    assert_eq!(miner_key("zzzzzzzzzzzzzzzzzzzzzzzzzzzzzzzzzzzzzzzzzzzzzzzzzzzz"), None);
}

#[test]
fn the_text_of_a_key_reads_back() {
    for fill in [0u8, 1, 36, 99, 200, 255] {
        let mut key = [fill; 32];
        key[7] = 3;
        let text = Public::new_from_buf(&key).dump_base36();
        assert_eq!(miner_key(&text), Some(key));
    }
}
