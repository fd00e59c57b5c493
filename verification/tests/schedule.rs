// Buffer scheduling, round strategy, precompute-M planning and segment-tree plans.

use cuda_backend::gkr_schedule::{
    choose_precompute_m_window_w, choose_round_strategy, eq_tail_layout, gkr_work_buffer_size,
    precompute_m_build_tail_tile, precompute_m_num_tail_blocks, precompute_m_window_plan,
    segment_tree_build_plan, BufferScheduler, BufferTarget, GkrRoundStrategy,
    GKR_WINDOW_DEFAULT_MIN_N, GKR_WINDOW_SIZE, PRECOMPUTE_M_DEFAULT_MIN_BLOCKS,
    PRECOMPUTE_M_DEFAULT_TARGET_BLOCKS,
};

const MB: usize = PRECOMPUTE_M_DEFAULT_MIN_BLOCKS;
const TB: usize = PRECOMPUTE_M_DEFAULT_TARGET_BLOCKS;
const MIN_N: usize = GKR_WINDOW_DEFAULT_MIN_N;

#[test]
fn scheduler_starts_in_layer() {
    let s = BufferScheduler::new(100);
    assert!(!s.data_in_work_buffer);
    assert_eq!(s.work_buffer_cap, 100);
    assert!(s.can_pingpong(100));
    assert!(!s.can_pingpong(101));
}

#[test]
fn scheduler_inner_rounds_keep_layer_intact() {
    let mut s = BufferScheduler::new(8);
    assert_eq!(s.next_target(64, false), BufferTarget::LayerToWork);
    assert!(s.data_in_work_buffer);
    assert_eq!(s.next_target(32, false), BufferTarget::InPlaceWork);
    assert_eq!(s.next_target(16, false), BufferTarget::InPlaceWork);
    assert!(s.data_in_work_buffer);
    assert_eq!(s.final_fold_target(false), BufferTarget::InPlaceWork);
    let fresh = BufferScheduler::new(8);
    assert_eq!(fresh.final_fold_target(false), BufferTarget::LayerToWork);
}

#[test]
fn scheduler_last_outer_round_pingpongs_when_it_fits() {
    let mut s = BufferScheduler::new(16);
    // Too large for the work buffer: fold in place on the layer.
    assert_eq!(s.next_target(64, true), BufferTarget::InPlaceLayer);
    assert!(!s.data_in_work_buffer);
    assert_eq!(s.next_target(32, true), BufferTarget::InPlaceLayer);
    // Fits: ping-pong between the two buffers.
    assert_eq!(s.next_target(16, true), BufferTarget::LayerToWork);
    assert!(s.data_in_work_buffer);
    assert_eq!(s.next_target(8, true), BufferTarget::WorkToLayer);
    assert!(!s.data_in_work_buffer);
    assert_eq!(s.next_target(4, true), BufferTarget::LayerToWork);
    assert_eq!(s.final_fold_target(true), BufferTarget::InPlaceWork);
    let fresh = BufferScheduler::new(16);
    assert_eq!(fresh.final_fold_target(true), BufferTarget::InPlaceLayer);
}

#[test]
fn tail_blocks_and_tiles() {
    assert_eq!(precompute_m_num_tail_blocks(22, 3, 4096), 128);
    assert_eq!(precompute_m_num_tail_blocks(22, 3, 512), 1024);
    assert_eq!(precompute_m_num_tail_blocks(10, 3, 256), 1);
    assert_eq!(precompute_m_num_tail_blocks(13, 3, 1000), 2);
    // 2^19 tail points over 1024 target blocks: a tile of 512.
    assert_eq!(precompute_m_build_tail_tile(22, 3, MB, TB, None), 512);
    // Tiny tail: clamped up to the smallest tile.
    assert_eq!(precompute_m_build_tail_tile(10, 3, MB, TB, None), 256);
    // Huge tail: clamped down to the largest tile.
    assert_eq!(precompute_m_build_tail_tile(30, 3, MB, TB, None), 4096);
    // The threshold raises the block target when it is larger.
    assert_eq!(precompute_m_build_tail_tile(22, 3, 2048, 1024, None), 256);
    // An override wins.
    assert_eq!(precompute_m_build_tail_tile(22, 3, MB, TB, Some(777)), 777);
}

#[test]
fn window_choice() {
    assert_eq!(choose_precompute_m_window_w(22, 10, MB, TB, None, MIN_N), Some(GKR_WINDOW_SIZE));
    assert_eq!(choose_precompute_m_window_w(21, 10, MB, TB, None, MIN_N), None);
    assert_eq!(choose_precompute_m_window_w(22, 2, MB, TB, None, MIN_N), None);
    // Tile 263, 1994 blocks: below a threshold of 2000.
    assert_eq!(choose_precompute_m_window_w(22, 10, 2000, TB, None, MIN_N), None);
    assert_eq!(choose_precompute_m_window_w(22, 10, 64, TB, Some(4096), MIN_N), Some(3));
    assert_eq!(choose_precompute_m_window_w(22, 10, 200, TB, Some(4096), MIN_N), None);
    assert_eq!(choose_precompute_m_window_w(16, 8, 1, TB, None, 16), Some(3));
}

#[test]
fn round_strategy() {
    assert_eq!(choose_round_strategy(23, true, MB, TB, None, MIN_N), GkrRoundStrategy::PrecomputeM);
    assert_eq!(choose_round_strategy(23, false, MB, TB, None, MIN_N), GkrRoundStrategy::FoldEval);
    assert_eq!(choose_round_strategy(22, true, MB, TB, None, MIN_N), GkrRoundStrategy::FoldEval);
    assert_eq!(choose_round_strategy(1, true, MB, TB, None, MIN_N), GkrRoundStrategy::FoldEval);
    assert_eq!(choose_round_strategy(17, true, 1, TB, None, 16), GkrRoundStrategy::PrecomputeM);
}

#[test]
fn work_buffer_size() {
    assert_eq!(gkr_work_buffer_size(10, 1024, false), 256);
    assert_eq!(gkr_work_buffer_size(26, 1 << 26, true), 1 << 22);
    assert_eq!(gkr_work_buffer_size(30, 1 << 30, true), 1 << 25);
    assert_eq!(gkr_work_buffer_size(2, 4, true), 0);
    assert_eq!(gkr_work_buffer_size(2, 4, false), 0);
}

#[test]
fn eq_tail() {
    let t = eq_tail_layout(5, 3, 0);
    assert_eq!((t.low_n, t.high_n, t.low_cap, t.tail_n), (3, 5, 8, 8));
    let t = eq_tail_layout(5, 3, 2);
    assert_eq!((t.low_n, t.high_n, t.low_cap, t.tail_n), (3, 3, 8, 6));
    let t = eq_tail_layout(5, 3, 5);
    assert_eq!((t.low_n, t.high_n, t.low_cap, t.tail_n), (3, 0, 8, 3));
    let t = eq_tail_layout(5, 3, 6);
    assert_eq!((t.low_n, t.high_n, t.low_cap, t.tail_n), (2, 0, 4, 2));
    let t = eq_tail_layout(5, 3, 8);
    assert_eq!((t.low_n, t.high_n, t.low_cap, t.tail_n), (0, 0, 1, 0));
    let t = eq_tail_layout(5, 3, 100);
    assert_eq!((t.low_n, t.high_n, t.low_cap, t.tail_n), (0, 0, 1, 0));
}

#[test]
fn window_plan_covers_prefix() {
    let (ws, tail) = precompute_m_window_plan(27, MB, TB, None, MIN_N);
    assert_eq!(ws.len(), 2);
    assert_eq!(tail, 7);
    assert_eq!(
        (ws[0].base, ws[0].rem_n, ws[0].w, ws[0].tail_tile, ws[0].num_blocks, ws[0].inline_fold, ws[0].fold_vars),
        (1, 26, 3, 4096, 2048, true, 4)
    );
    assert_eq!(
        (ws[1].base, ws[1].rem_n, ws[1].w, ws[1].tail_tile, ws[1].num_blocks, ws[1].inline_fold, ws[1].fold_vars),
        (4, 23, 3, 1024, 1024, false, 3)
    );
    let folded: usize = ws.iter().map(|w| w.fold_vars).sum();
    assert_eq!(folded, tail);
    let (ws, tail) = precompute_m_window_plan(10, MB, TB, None, MIN_N);
    assert!(ws.is_empty());
    assert_eq!(tail, 1);
}

#[test]
fn segment_tree_plans() {
    let p = segment_tree_build_plan(10, true);
    assert!(!p.fused_first_two);
    assert_eq!(p.start_layer, 1);
    assert_eq!(p.two_layer_halves, vec![128, 32, 8, 2]);
    assert_eq!(p.single_layer_size, Some(2));
    let p = segment_tree_build_plan(11, true);
    assert!(p.fused_first_two);
    assert_eq!(p.start_layer, 2);
    assert_eq!(p.two_layer_halves, vec![128, 32, 8, 2]);
    assert_eq!(p.single_layer_size, Some(2));
    let p = segment_tree_build_plan(12, true);
    assert_eq!(p.two_layer_halves, vec![256, 64, 16, 4, 1]);
    assert_eq!(p.single_layer_size, None);
    let p = segment_tree_build_plan(12, false);
    assert!(!p.fused_first_two);
    assert_eq!(p.two_layer_halves, vec![512, 128, 32, 8, 2]);
    assert_eq!(p.single_layer_size, Some(2));
    let p = segment_tree_build_plan(1, true);
    assert!(p.two_layer_halves.is_empty());
    assert_eq!(p.single_layer_size, None);
}

#[test]
fn work_buffer_holds_fold_eval_writes() {
    for t in 3..30usize {
        for round in 1..=t - 2 {
            assert!(1usize << round <= gkr_work_buffer_size(t, 1 << t, false), "t={t} round={round}");
            if round <= 22 || round + 5 <= t {
                assert!(1usize << round <= gkr_work_buffer_size(t, 1 << t, true), "t={t} round={round}");
            }
        }
    }
    // A fold-eval layer near the top of a large tree with precompute-M on does not fit.
    assert!(gkr_work_buffer_size(30, 1 << 30, true) < 1 << 28);
}
