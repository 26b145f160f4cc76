use betfair_data::config::Config;
use betfair_data::enums::SelectionStatus;
use betfair_data::ids::SelectionID;
use betfair_data::immutable::definition::{RunnerDefSeq, RunnerDefUpdate as ImmRunnerDefUpdate};
use betfair_data::immutable::runner::RunnerChangeSeq;
use betfair_data::price_size::PriceSize;
use betfair_data::runner::{
    Runner, RunnerChange, RunnerChangeSeqDeser, RunnerDefSeqDeser, RunnerDefUpdate, apply_runner_change,
};

fn ps(price: u64, size: u64) -> PriceSize {
    PriceSize::new(price, size)
}

fn change(id: u32) -> RunnerChange {
    RunnerChange {
        id,
        hc: None,
        atb: None,
        atl: None,
        trd: None,
        spb: None,
        spl: None,
        spn: None,
        spf: None,
        ltp: None,
        tv: None,
    }
}

fn def(id: u32, status: SelectionStatus) -> RunnerDefUpdate {
    RunnerDefUpdate {
        id,
        adjustment_factor: Some(1234),
        status,
        sort_priority: 1,
        name: Some(format!("runner {}", id)),
        bsp: None,
        removal_date: None,
        hc: None,
    }
}

fn imm_def(id: u32, status: SelectionStatus) -> ImmRunnerDefUpdate {
    ImmRunnerDefUpdate {
        id,
        adjustment_factor: Some(1234),
        status,
        sort_priority: 1,
        name: Some(format!("runner {}", id)),
        bsp: None,
        removal_date: None,
        hc: None,
    }
}

#[test]
fn runner_change_applies_ladders_and_prices() {
    let mut r = Runner::new();
    let mut c = change(1);
    c.atb = Some(vec![ps(200, 500), ps(210, 300)]);
    c.atl = Some(vec![ps(230, 100), ps(220, 700)]);
    c.trd = Some(vec![ps(200, 1000), ps(210, 250)]);
    c.ltp = Some(210);
    c.spn = Some(215);
    c.tv = Some(9999);
    apply_runner_change(&mut r, &c, Config { cumulative_runner_tv: true });
    // available to back is kept descending, to lay ascending
    assert_eq!(r.ex.available_to_back, vec![ps(210, 300), ps(200, 500)]);
    assert_eq!(r.ex.available_to_lay, vec![ps(220, 700), ps(230, 100)]);
    assert_eq!(r.last_price_traded, Some(210));
    assert_eq!(r.sp.near_price, Some(215));
    // cumulative volumes: the total is the traded ladder's
    assert_eq!(r.total_matched, 1250);

    let mut r2 = Runner::new();
    apply_runner_change(&mut r2, &c, Config { cumulative_runner_tv: false });
    assert_eq!(r2.total_matched, 9999);
}

#[test]
fn runner_change_sp_sides() {
    let mut r = Runner::new();
    let mut c = change(1);
    c.spb = Some(vec![ps(300, 10), ps(500, 20)]);
    c.spl = Some(vec![ps(500, 30), ps(300, 40)]);
    apply_runner_change(&mut r, &c, Config { cumulative_runner_tv: false });
    // the back side goes to the lay liability (descending), the lay side to the back stake
    assert_eq!(r.sp.lay_liability_taken, vec![ps(500, 20), ps(300, 10)]);
    assert_eq!(r.sp.back_stake_taken, vec![ps(300, 40), ps(500, 30)]);
}

#[test]
fn runner_change_seq_in_place_new_runner_keeps_default_id() {
    let mut runners: Vec<Runner> = Vec::new();
    let mut c = change(42);
    c.ltp = Some(300);
    RunnerChangeSeqDeser { changes: &[c], config: Config { cumulative_runner_tv: false } }.deserialize(&mut runners);
    assert_eq!(runners.len(), 1);
    assert_eq!(runners[0].selection_id, SelectionID::default());
    assert_eq!(runners[0].last_price_traded, Some(300));
}

#[test]
fn runner_change_seq_copies_new_runner_with_its_id() {
    let mut c = change(42);
    c.ltp = Some(300);
    let next = RunnerChangeSeq { runners: None, next: None, config: Config { cumulative_runner_tv: false } }
        .deserialize(&[c])
        .unwrap();
    assert_eq!(next.len(), 1);
    assert_eq!(next[0].selection_id, SelectionID::from((42, None)));

    let mut c2 = change(42);
    c2.ltp = Some(310);
    let next2 = RunnerChangeSeq { runners: Some(next.as_slice()), next: None, config: Config { cumulative_runner_tv: false } }
        .deserialize(&[c2])
        .unwrap();
    assert_eq!(next2.len(), 1);
    assert_eq!(next2[0].last_price_traded, Some(310));
    // the earlier runners are left as they were
    assert_eq!(next[0].last_price_traded, Some(300));
}

#[test]
fn runner_defs_in_place_reorder_and_drop() {
    let mut runners: Vec<Runner> = Vec::new();
    RunnerDefSeqDeser { defs: &[def(1, SelectionStatus::Active), def(2, SelectionStatus::Active), def(3, SelectionStatus::Active)] }
        .deserialize(&mut runners);
    assert_eq!(runners.iter().map(|r| r.selection_id.id()).collect::<Vec<_>>(), vec![1, 2, 3]);
    assert_eq!(runners[1].name.as_deref(), Some("runner 2"));

    let mut d3 = def(3, SelectionStatus::Removed);
    d3.name = None;
    RunnerDefSeqDeser { defs: &[d3, def(1, SelectionStatus::Winner)] }.deserialize(&mut runners);
    assert_eq!(runners.iter().map(|r| r.selection_id.id()).collect::<Vec<_>>(), vec![3, 1]);
    assert_eq!(runners[0].status, SelectionStatus::Removed);
    assert_eq!(runners[0].name, None);
    assert_eq!(runners[1].status, SelectionStatus::Winner);
}

#[test]
fn runner_defs_copied_unchanged_gives_none() {
    let start = RunnerDefSeq { runners: None, next: None }
        .deserialize(&[imm_def(1, SelectionStatus::Active), imm_def(2, SelectionStatus::Active)])
        .unwrap();
    assert_eq!(start.len(), 2);
    // the same entries in the same order change nothing
    let same = RunnerDefSeq { runners: Some(start.as_slice()), next: None }
        .deserialize(&[imm_def(1, SelectionStatus::Active), imm_def(2, SelectionStatus::Active)]);
    assert!(same.is_none());
    // a changed status gives new runners
    let changed = RunnerDefSeq { runners: Some(start.as_slice()), next: None }
        .deserialize(&[imm_def(1, SelectionStatus::Active), imm_def(2, SelectionStatus::Removed)])
        .unwrap();
    assert_eq!(changed[1].status, SelectionStatus::Removed);
    assert_eq!(start[1].status, SelectionStatus::Active);
    // a new order gives new runners in it
    let reordered = RunnerDefSeq { runners: Some(start.as_slice()), next: None }
        .deserialize(&[imm_def(2, SelectionStatus::Active), imm_def(1, SelectionStatus::Active)])
        .unwrap();
    assert_eq!(reordered.iter().map(|r| r.selection_id.id()).collect::<Vec<_>>(), vec![2, 1]);
}

#[test]
fn runner_defs_copied_name_kept_when_entry_has_none() {
    let start = RunnerDefSeq { runners: None, next: None }.deserialize(&[imm_def(1, SelectionStatus::Active)]).unwrap();
    let mut d = imm_def(1, SelectionStatus::Winner);
    d.name = None;
    let next = RunnerDefSeq { runners: Some(start.as_slice()), next: None }.deserialize(&[d]).unwrap();
    assert_eq!(next[0].name.as_deref(), Some("runner 1"));
    assert_eq!(next[0].status, SelectionStatus::Winner);
}

#[test]
fn runner_defs_in_progress_insert_at_place() {
    let n = RunnerDefSeq { runners: None, next: None }
        .deserialize(&[imm_def(1, SelectionStatus::Active), imm_def(2, SelectionStatus::Active)])
        .unwrap();
    let r = RunnerDefSeq { runners: None, next: Some(n) }
        .deserialize(&[imm_def(3, SelectionStatus::Active), imm_def(1, SelectionStatus::Active)])
        .unwrap();
    // 3 is put at place 0, then 1 is brought to place 1; 2 follows
    assert_eq!(r.iter().map(|r| r.selection_id.id()).collect::<Vec<_>>(), vec![3, 1, 2]);
}
