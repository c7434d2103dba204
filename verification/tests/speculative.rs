//! Drafts, what of them stays, and the loop that makes them.

use lisa_rs::speculative::block3::{
    generate_greedy_block3_prefilled, generate_greedy_block3_prefilled_streaming,
    generate_greedy_prefilled_streaming, Block3Action, Block3Event, Block3Loop, Block3Step,
    Condition,
};
use lisa_rs::speculative::prefill::{prefill_prefix_until, prefill_prompt, prefill_prompt_from};
use lisa_rs::speculative::{
    accept_greedy, mtp_reconcile_plan, GreedyAcceptance, MtpReconcilePlan, MtpReplay,
};

#[test]
fn rejects_first_draft() {
    assert_eq!(
        accept_greedy(&[10, 11], &[20, 21, 22]),
        GreedyAcceptance {
            accepted_drafts: 0,
            emitted: vec![20],
            target_trim: 2,
        }
    );
}

#[test]
fn accepts_one_draft() {
    assert_eq!(
        accept_greedy(&[10, 11], &[10, 21, 22]),
        GreedyAcceptance {
            accepted_drafts: 1,
            emitted: vec![10, 21],
            target_trim: 1,
        }
    );
}

#[test]
fn accepts_all_drafts_and_bonus() {
    assert_eq!(
        accept_greedy(&[10, 11], &[10, 11, 22]),
        GreedyAcceptance {
            accepted_drafts: 2,
            emitted: vec![10, 11, 22],
            target_trim: 0,
        }
    );
}

#[test]
fn reconciles_first_round_transitions() {
    assert_eq!(
        mtp_reconcile_plan(2, 2, 0),
        MtpReconcilePlan {
            trim: 2,
            replay: vec![MtpReplay::Replacement],
        }
    );
    assert_eq!(
        mtp_reconcile_plan(2, 2, 1),
        MtpReconcilePlan {
            trim: 1,
            replay: vec![MtpReplay::Replacement],
        }
    );
    assert_eq!(
        mtp_reconcile_plan(2, 2, 2),
        MtpReconcilePlan {
            trim: 0,
            replay: vec![MtpReplay::Replacement],
        }
    );
}

#[test]
fn reconciles_seeded_round_transitions() {
    assert_eq!(
        mtp_reconcile_plan(2, 1, 0),
        MtpReconcilePlan {
            trim: 1,
            replay: vec![MtpReplay::Replacement],
        }
    );
    assert_eq!(
        mtp_reconcile_plan(2, 1, 1),
        MtpReconcilePlan {
            trim: 0,
            replay: vec![MtpReplay::Replacement],
        }
    );
    assert_eq!(
        mtp_reconcile_plan(2, 1, 2),
        MtpReconcilePlan {
            trim: 0,
            replay: vec![MtpReplay::Draft(1), MtpReplay::Replacement],
        }
    );
}

#[test]
fn accepts_nothing_of_no_drafts() {
    let acceptance = accept_greedy(&[], &[5]);
    assert_eq!(acceptance.emitted, vec![5]);
    assert_eq!(acceptance.accepted_drafts, 0);
    assert_eq!(acceptance.target_trim, 0);
}

/// A target that continues any text, one token at a time.
fn next_token(text: &[u32]) -> u32 {
    let mut hash: u32 = 7;
    for token in text {
        hash = hash.wrapping_mul(31).wrapping_add(*token + 1);
    }
    hash % 5
}

/// Runs the loop against that target and a drafter that is right every so often, and gives
/// back the tokens that were told on the way.
fn run_loop(
    mut generation: Block3Loop,
    begun: Block3Step,
    prompt: &[u32],
    right_every: usize,
) -> (Block3Loop, Vec<u32>) {
    let mut text: Vec<u32> = prompt.to_vec();
    let mut told: Vec<u32> = begun.emitted.clone();
    let mut action = begun.action;
    let mut drafts = 0;
    for _ in 0..1000 {
        let event = match action {
            Block3Action::Finished => return (generation, told),
            Block3Action::Decode { token } => {
                text.push(token);
                Block3Event::Token(next_token(&text))
            }
            Block3Action::Draft { token, condition } => {
                drafts += 1;
                let mut guess = text.clone();
                if condition == Condition::Own {
                    guess.push(9);
                }
                guess.push(token);
                let right = next_token(&guess);
                Block3Event::Token(if drafts % right_every == 0 { right } else { right + 1 })
            }
            Block3Action::Verify { bonus, first, second } => {
                let mut a = text.clone();
                a.push(bonus);
                let mut b = a.clone();
                b.push(first);
                let mut c = b.clone();
                c.push(second);
                text = c.clone();
                Block3Event::Verified(next_token(&a), next_token(&b), next_token(&c))
            }
            Block3Action::Settle { rows, token, .. } => {
                text.truncate(text.len() - (3 - rows));
                let mut guess = text.clone();
                guess.push(token);
                Block3Event::Token(next_token(&guess))
            }
        };
        let step = generation.step(event);
        told.extend(step.emitted.iter());
        action = step.action;
    }
    panic!("the loop does not end");
}

/// What the target alone generates behind its first token.
fn greedy(prompt: &[u32], first: u32, count: usize) -> Vec<u32> {
    let mut text = prompt.to_vec();
    let mut tokens = vec![first];
    while tokens.len() < count {
        text.push(*tokens.last().unwrap());
        tokens.push(next_token(&text));
    }
    tokens
}

#[test]
fn speculation_gives_what_the_target_gives() {
    let prompt = [3, 1, 4];
    let bonus = next_token(&prompt);
    for right_every in [1, 2, 3, 5] {
        for count in 1..20 {
            let (generation, begun) = generate_greedy_block3_prefilled(bonus, 2, count);
            let (generation, told) = run_loop(generation, begun, &prompt, right_every);
            let expected = greedy(&prompt, bonus, count);
            assert_eq!(told, expected);
            let result = generation.result();
            assert_eq!(result.tokens, expected);
            assert!(result.accepted_drafts <= result.drafted_tokens);
        }
    }
}

#[test]
fn generation_stops_at_the_end_token() {
    let prompt = [3, 1, 4];
    let bonus = next_token(&prompt);
    let all = greedy(&prompt, bonus, 40);
    for eos in 0..5 {
        let (generation, begun) =
            generate_greedy_block3_prefilled_streaming(bonus, 2, 40, Some(eos));
        let (generation, told) = run_loop(generation, begun, &prompt, 2);
        let expected: Vec<u32> = match all.iter().position(|token| *token == eos) {
            Some(at) => all[..at].to_vec(),
            None => all.clone(),
        };
        assert_eq!(told, expected);
        assert_eq!(generation.result().tokens, expected);
        assert_eq!(generation.result().target_forwards == 0, eos == bonus);

        let (generation, begun) = generate_greedy_prefilled_streaming(bonus, 40, Some(eos));
        let (generation, told) = run_loop(generation, begun, &prompt, 2);
        assert_eq!(told, expected);
        assert_eq!(generation.result().tokens, expected);
    }
}

#[test]
fn a_stop_token_at_the_start_is_not_handed_out() {
    let (generation, begun) = generate_greedy_block3_prefilled_streaming(7, 2, 5, Some(7));
    assert_eq!(begun.action, Block3Action::Finished);
    assert!(begun.emitted.is_empty());
    assert!(generation.result().tokens.is_empty());
    assert_eq!(generation.result().target_forwards, 0);
}

#[test]
fn a_target_without_a_drafter_decodes_token_by_token() {
    let prompt = [3, 1, 4];
    let bonus = next_token(&prompt);
    for count in 0..12 {
        let (mut generation, begun) = generate_greedy_prefilled_streaming(bonus, count, None);
        let mut text = prompt.to_vec();
        let mut told = begun.emitted.clone();
        let mut action = begun.action;
        while let Block3Action::Decode { token } = action {
            text.push(token);
            let step = generation.step(Block3Event::Token(next_token(&text)));
            told.extend(step.emitted.iter());
            action = step.action;
        }
        assert_eq!(action, Block3Action::Finished);
        let expected = if count == 0 { Vec::new() } else { greedy(&prompt, bonus, count) };
        assert_eq!(told, expected);
        let result = generation.result();
        assert_eq!(result.tokens, expected);
        assert_eq!(result.drafted_tokens, 0);
        assert_eq!(result.acceptance(), None);
        assert_eq!(result.target_forwards, count.saturating_sub(1));
    }
}

#[test]
fn a_block_is_settled_as_planned() {
    let verified = |t: (u32, u32, u32)| {
        let (mut generation, begun) = generate_greedy_block3_prefilled(1, 2, 9);
        assert_eq!(begun.action, Block3Action::Draft { token: 2, condition: Condition::Own });
        let step = generation.step(Block3Event::Token(3));
        assert_eq!(step.action, Block3Action::Verify { bonus: 1, first: 2, second: 3 });
        let step = generation.step(Block3Event::Verified(t.0, t.1, t.2));
        assert!(step.emitted.is_empty());
        (generation, step.action)
    };
    let settle = |rows, trim, token, row| Block3Action::Settle { rows, trim, token, row };

    let (mut generation, action) = verified((6, 7, 8));
    assert_eq!(action, settle(1, 1, 6, 0));
    let step = generation.step(Block3Event::Token(5));
    assert_eq!(step.emitted, vec![6]);
    assert_eq!(step.action, Block3Action::Draft { token: 5, condition: Condition::Own });

    let (mut generation, action) = verified((2, 7, 8));
    assert_eq!(action, settle(2, 0, 7, 1));
    assert_eq!(generation.step(Block3Event::Token(5)).emitted, vec![2, 7]);

    // The second draft was accepted, and has not been run.
    let (mut generation, action) = verified((2, 3, 4));
    assert_eq!(action, settle(3, 0, 3, 1));
    let step = generation.step(Block3Event::Token(99));
    assert!(step.emitted.is_empty());
    assert_eq!(
        step.action,
        Block3Action::Draft { token: 4, condition: Condition::TargetRow(2) }
    );
    let step = generation.step(Block3Event::Token(5));
    assert_eq!(step.emitted, vec![2, 3, 4]);
    assert_eq!(step.action, Block3Action::Draft { token: 5, condition: Condition::Own });
}

#[test]
fn the_drafter_has_run_what_was_accepted() {
    let prompt = [3, 1, 4];
    let bonus = next_token(&prompt);
    for wrong_every in [1, 2, 3, 7, 1000] {
        let mut text = prompt.to_vec();
        let mut cache = vec![1, 4, bonus];
        let mut answers = 0;
        let (mut generation, begun) = generate_greedy_block3_prefilled(bonus, 2, 60);
        let mut action = begun.action;
        let mut full = 0;
        while !matches!(action, Block3Action::Finished | Block3Action::Decode { .. }) {
            let mut draft = |text: &[u32]| {
                answers += 1;
                Block3Event::Token((next_token(text) + u32::from(answers % wrong_every == 0)) % 5)
            };
            let event = match action {
                Block3Action::Draft { token, condition } => {
                    if condition == Condition::Own {
                        let known = [&prompt[..], &generation.result().tokens].concat();
                        assert_eq!(cache, known[1..]);
                    }
                    cache.push(token);
                    draft(&[&prompt[..1], &cache].concat())
                }
                Block3Action::Verify { bonus, first, second } => {
                    text.extend([bonus, first, second]);
                    let len = text.len();
                    Block3Event::Verified(
                        next_token(&text[..len - 2]),
                        next_token(&text[..len - 1]),
                        next_token(&text),
                    )
                }
                Block3Action::Settle { rows, trim, token, .. } => {
                    full += usize::from(rows == 3);
                    text.truncate(text.len() - (3 - rows));
                    cache.truncate(cache.len() - trim);
                    cache.push(token);
                    draft(&[&prompt[..1], &cache].concat())
                }
                other => panic!("{other:?}"),
            };
            action = generation.step(event).action;
        }
        assert_eq!(full > 0, wrong_every > 1, "{wrong_every}");
    }
}

#[test]
fn acceptance_is_a_share() {
    let prompt = [1];
    let bonus = next_token(&prompt);
    let (generation, begun) = generate_greedy_block3_prefilled(bonus, 2, 1);
    let (generation, _) = run_loop(generation, begun, &prompt, 1);
    assert_eq!(generation.result().acceptance(), None);
    let (generation, begun) = generate_greedy_block3_prefilled(bonus, 2, 12);
    let (generation, _) = run_loop(generation, begun, &prompt, 1);
    let result = generation.result();
    assert_eq!(
        result.acceptance(),
        Some((result.accepted_drafts, result.drafted_tokens))
    );
    assert_eq!(result.drafted_tokens, 2 * result.rounds);
}

#[test]
fn prompts_are_planned() {
    assert!(prefill_prompt(&[]).is_err());
    let plan = prefill_prompt(&[5, 6, 7]).unwrap();
    assert_eq!(plan.start, 0);
    assert_eq!(plan.target_tokens, vec![5, 6, 7]);
    assert!(!plan.batched);
    assert_eq!(plan.drafter_tokens(&[5, 6, 7], 9), vec![6, 7, 9]);
    assert_eq!(plan.bonus(&[1, 2, 9]), 9);
    assert_eq!(plan.processed(2), 2);

    let plan = prefill_prompt(&[1, 2, 3, 4]).unwrap();
    assert!(plan.batched);

    let plan = prefill_prompt_from(&[1, 2, 3, 4, 5, 6], 2).unwrap();
    assert_eq!(plan.start, 2);
    assert_eq!(plan.target_tokens, vec![3, 4, 5, 6]);
    assert_eq!(plan.processed(1), 3);

    let plan = prefill_prefix_until(&[1, 2, 3, 4, 5, 6], 1, 4).unwrap();
    assert_eq!(plan.target_tokens, vec![2, 3, 4]);
    assert_eq!(plan.drafter_tokens(&[1, 2, 3, 4, 5, 6], 9), vec![3, 4, 5]);
}

#[test]
fn prompts_that_cannot_be_planned() {
    assert_eq!(prefill_prompt(&[]).unwrap_err(), "cannot prefill an empty prompt");
    assert_eq!(
        prefill_prompt_from(&[1, 2], 5).unwrap_err(),
        "prefill start 5 exceeds prompt length 2"
    );
    assert_eq!(
        prefill_prefix_until(&[1, 2], 0, 2).unwrap_err(),
        "prefill_prefix_until: invalid range [0, 2] for prompt len 2"
    );
    assert_eq!(
        prefill_prefix_until(&[1, 2], 1, 0).unwrap_err(),
        "prefill_prefix_until: invalid range [1, 0] for prompt len 2"
    );
}

#[test]
fn nothing_is_generated_where_nothing_is_asked() {
    let (generation, begun) = generate_greedy_block3_prefilled(4, 2, 0);
    assert_eq!(begun.action, Block3Action::Finished);
    assert!(begun.emitted.is_empty());
    assert!(generation.result().tokens.is_empty());
}

#[test]
fn a_prompt_in_two_parts_feeds_what_the_whole_feeds() {
    let prompt = [1, 2, 3, 4, 5, 6, 7];
    let whole = prefill_prompt(&prompt).unwrap();
    let first = prefill_prefix_until(&prompt, 0, 3).unwrap();
    let rest = prefill_prompt_from(&prompt, 3).unwrap();
    let target: Vec<u32> = [first.target_tokens.clone(), rest.target_tokens.clone()].concat();
    assert_eq!(target, whole.target_tokens);
    let drafter: Vec<u32> =
        [first.drafter_tokens(&prompt, 50), rest.drafter_tokens(&prompt, 60)].concat();
    assert_eq!(drafter, whole.drafter_tokens(&prompt, 60));
}
