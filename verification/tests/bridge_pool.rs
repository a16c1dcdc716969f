use namada_governance::bridge_pool::{attach_verdicts, keep_valid, Shell, Signed, Vext};
use namada_governance::types::{Address, BlockHeight};

#[derive(Debug, Clone, PartialEq)]
enum Refusal {
    UnexpectedBlockHeight,
    InvalidSignature,
}

fn shell_at(height: u64) -> Shell {
    Shell {
        last_block_height: BlockHeight(height),
    }
}

fn vext(validator: &str, height: u64, sig: u8) -> Signed<Vext> {
    Signed {
        data: Vext {
            block_height: BlockHeight(height),
            validator_addr: Address::new(validator.to_string()),
            sig: vec![sig; 64],
        },
        sig: vec![sig; 65],
    }
}

/// Refuses heights that lie ahead, and signatures made of zeros.
fn check(ext: &Signed<Vext>, last_height: BlockHeight) -> Result<(), Refusal> {
    if ext.data.block_height.0 > last_height.0 {
        Err(Refusal::UnexpectedBlockHeight)
    } else if ext.data.sig[0] == 0 {
        Err(Refusal::InvalidSignature)
    } else {
        Ok(())
    }
}

/// Test that we de-duplicate the bridge pool vexts
/// in a block proposal by validator address.
#[test]
fn test_vexts_are_de_duped() {
    let shell = shell_at(1);
    let vote_ext = vext("established", 1, 7);
    let valid = shell.filter_invalid_bp_roots_vexts(vec![vote_ext.clone(), vote_ext.clone()], check);
    assert_eq!(valid, vec![vote_ext]);
}

#[test]
fn duplicates_need_not_be_neighbours() {
    let shell = shell_at(5);
    let first = vext("alice", 4, 1);
    let second = vext("bertha", 5, 2);
    let third = vext("alice", 5, 3);
    let fourth = vext("christel", 5, 4);
    let valid = shell.filter_invalid_bp_roots_vexts(
        vec![first.clone(), second.clone(), third, second.clone(), fourth.clone()],
        check,
    );
    assert_eq!(valid, vec![first, second, fourth]);
}

#[test]
fn an_invalid_vext_does_not_shadow_a_valid_one() {
    let shell = shell_at(5);
    let invalid = vext("alice", 6, 1);
    let valid = vext("alice", 5, 2);
    let kept = shell.filter_invalid_bp_roots_vexts(vec![invalid, valid.clone()], check);
    assert_eq!(kept, vec![valid]);
}

#[test]
fn reasons_are_handed_on() {
    let shell = shell_at(3);
    let good = vext("alice", 3, 1);
    let ahead = vext("bertha", 4, 1);
    let unsigned = vext("christel", 2, 0);
    let results = shell.validate_bp_roots_vext_list(
        vec![good.clone(), ahead, unsigned, good.clone()],
        check,
    );
    assert_eq!(
        results,
        vec![
            Ok(good.clone()),
            Err(Refusal::UnexpectedBlockHeight),
            Err(Refusal::InvalidSignature),
            Ok(good),
        ]
    );
}

#[test]
fn validation_is_at_the_last_block_height() {
    let ext = vext("alice", 4, 1);
    assert!(shell_at(3).validate_bp_roots_vext_list(vec![ext.clone()], check)[0].is_err());
    assert!(shell_at(4).validate_bp_roots_vext_list(vec![ext], check)[0].is_ok());
}

#[test]
fn nothing_in_nothing_out() {
    assert!(shell_at(1).validate_bp_roots_vext_list(vec![], check).is_empty());
    assert!(shell_at(1).filter_invalid_bp_roots_vexts(vec![], check).is_empty());
}

#[test]
fn verdicts_are_attached_in_order() {
    let a = vext("alice", 1, 1);
    let b = vext("bertha", 1, 2);
    let c = vext("christel", 1, 3);
    let verdicts: Vec<Result<(), u8>> = vec![Ok(()), Err(9), Err(8)];
    assert_eq!(
        attach_verdicts(vec![a.clone(), b, c], verdicts),
        vec![Ok(a), Err(9), Err(8)]
    );
}

#[test]
fn keeping_twice_is_keeping_once() {
    let a = vext("alice", 1, 1);
    let b = vext("bertha", 1, 2);
    let c = vext("alice", 1, 3);
    let results: Vec<Result<Signed<Vext>, u8>> =
        vec![Ok(a.clone()), Err(1), Ok(b.clone()), Ok(c)];
    let once = keep_valid(results);
    assert_eq!(once, vec![a, b]);
    let again: Vec<Result<Signed<Vext>, u8>> = once.clone().into_iter().map(Ok).collect();
    assert_eq!(keep_valid(again), once);
}
