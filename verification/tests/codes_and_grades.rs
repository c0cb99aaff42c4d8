use std::collections::HashSet;

use guess_ai::ai::{EmbeddingRequestPayload, Message, Provider, RequestPayload};
use guess_ai::code::{
    code_from_draws, generate_game_code, CodeSearch, CodeStep, ALPHABET_SIZE, CODE_LENGTH,
    DEFAULT_ATTEMPTS,
};
use guess_ai::error::GameError;
use guess_ai::phase::Phase;
use guess_ai::requests::ScoreGuessPayload;
use guess_ai::scorer::{calculate_similarity, Embedding, FULL_SCORE, MAX_DIMENSION};
use guess_ai::user::{create_user, generate_jwt_token};

const LETTERS: &str = "ABCDEFGHIJKLMNOPQRSTUVWXYZ0123456789";

fn embedding(values: &[i16]) -> Embedding {
    Embedding::new(values.to_vec()).expect("few enough components")
}

fn grade(a: &[i16], b: &[i16]) -> u32 {
    calculate_similarity(&embedding(a), &embedding(b))
}

fn grade_in_floats(a: &[i16], b: &[i16]) -> u32 {
    let dot: f64 = a.iter().zip(b.iter()).map(|(x, y)| f64::from(*x) * f64::from(*y)).sum();
    let len_a: f64 = a.iter().map(|x| f64::from(*x).powi(2)).sum::<f64>().sqrt();
    let len_b: f64 = b.iter().map(|x| f64::from(*x).powi(2)).sum::<f64>().sqrt();
    let similarity = dot / (len_a * len_b);
    (similarity * 50.0 + 50.0).round() as u32
}

#[test]
fn a_code_has_five_letters_or_digits() {
    assert_eq!(CODE_LENGTH, 5);
    assert_eq!(ALPHABET_SIZE, 36);
    assert_eq!(LETTERS.len(), ALPHABET_SIZE);
    for _ in 0..2000 {
        let code = generate_game_code();
        assert_eq!(code.chars().count(), CODE_LENGTH);
        assert!(code.chars().all(|c| LETTERS.contains(c)), "{}", code);
    }
}

#[test]
fn codes_use_the_whole_alphabet() {
    let mut seen = HashSet::new();
    for _ in 0..5000 {
        seen.extend(generate_game_code().chars());
    }
    assert_eq!(seen.len(), ALPHABET_SIZE);
}

#[test]
fn a_search_proposes_as_many_codes_as_it_was_set_to() {
    let mut search = CodeSearch::new(3);
    assert_eq!(search.attempts_left(), 3);
    for left in [2, 1, 0] {
        let code = search.next_code().expect("a code");
        assert_eq!(code.chars().count(), CODE_LENGTH);
        assert!(code.chars().all(|c| LETTERS.contains(c)));
        assert_eq!(search.attempts_left(), left);
    }
    assert_eq!(search.next_code(), Err(GameError::CodeSpaceExhausted));
    assert_eq!(search.next_code(), Err(GameError::CodeSpaceExhausted));
    assert_eq!(search.attempts_left(), 0);
}

#[test]
fn a_search_without_attempts_is_exhausted_at_once() {
    let mut search = CodeSearch::new(0);
    assert_eq!(search.next_code(), Err(GameError::CodeSpaceExhausted));
}

/// Asks the search for a code that `in_use` does not hold.
fn free_code(search: &mut CodeSearch, in_use: &HashSet<String>) -> Result<String, GameError> {
    let mut code = search.next_code()?;
    loop {
        let taken = in_use.contains(&code);
        match search.after_check(code, taken)? {
            CodeStep::Use(free) => return Ok(free),
            CodeStep::Try(next) => code = next,
        }
    }
}

#[test]
fn a_million_codes_for_an_empty_store() {
    // Nothing is in use, so the first code of every search is free and no
    // search goes on to a second one.
    let in_use: HashSet<String> = HashSet::new();
    let mut handed_out: HashSet<String> = HashSet::new();
    for _ in 0..1_000_000 {
        let mut search = CodeSearch::new(DEFAULT_ATTEMPTS);
        let code = free_code(&mut search, &in_use).expect("a code");
        assert_eq!(search.attempts_left(), DEFAULT_ATTEMPTS - 1);
        assert_eq!(code.len(), CODE_LENGTH);
        handed_out.insert(code);
    }
    // 36^5 codes are about sixty million; a million draws leave about
    // 992,000 different ones.
    assert!(handed_out.len() > 980_000, "{}", handed_out.len());
    assert!(handed_out.len() < 1_000_000, "{}", handed_out.len());
}

#[test]
fn a_search_finds_a_free_code_in_a_busy_store() {
    let mut in_use: HashSet<String> = HashSet::new();
    for _ in 0..20_000 {
        let mut search = CodeSearch::new(DEFAULT_ATTEMPTS);
        let code = free_code(&mut search, &in_use).expect("a free code within the attempts");
        assert!(in_use.insert(code));
    }
    assert_eq!(in_use.len(), 20_000);
}

#[test]
fn a_free_code_is_used_as_it_is() {
    let mut search = CodeSearch::new(3);
    let code = search.next_code().expect("a code");
    match search.after_check(code.clone(), false) {
        Ok(CodeStep::Use(used)) => assert_eq!(used, code),
        other => panic!("not used: {:?}", other),
    }
    assert_eq!(search.attempts_left(), 2);
    // whatever text was looked up, it is the one handed back
    match search.after_check("hello".to_string(), false) {
        Ok(CodeStep::Use(used)) => assert_eq!(used, "hello"),
        other => panic!("not used: {:?}", other),
    }
    assert_eq!(search.attempts_left(), 2);
}

#[test]
fn a_code_in_use_is_dropped_for_the_next() {
    let mut search = CodeSearch::new(2);
    let first = search.next_code().expect("a code");
    let second = match search.after_check(first, true) {
        Ok(CodeStep::Try(next)) => next,
        other => panic!("no other code: {:?}", other),
    };
    assert_eq!(second.chars().count(), CODE_LENGTH);
    assert!(second.chars().all(|c| LETTERS.contains(c)));
    assert_eq!(search.attempts_left(), 0);
    match search.after_check(second, true) {
        Err(e) => assert_eq!(e, GameError::CodeSpaceExhausted),
        other => panic!("the search went on: {:?}", other),
    }
    assert_eq!(search.attempts_left(), 0);
}

#[test]
fn numbers_drawn_stand_for_their_characters() {
    assert_eq!(code_from_draws(&vec![0, 1, 2, 3, 4]), Some("ABCDE".to_string()));
    assert_eq!(code_from_draws(&vec![25, 26, 35, 0, 9]), Some("Z09AJ".to_string()));
    assert_eq!(code_from_draws(&vec![7, 7, 7, 7, 7]), Some("HHHHH".to_string()));
    assert_eq!(code_from_draws(&vec![35]), Some("9".to_string()));
    assert_eq!(code_from_draws(&vec![]), Some(String::new()));
    let all: Vec<usize> = (0..ALPHABET_SIZE).collect();
    assert_eq!(code_from_draws(&all), Some(LETTERS.to_string()));
}

#[test]
fn numbers_beyond_the_alphabet_stand_for_nothing() {
    assert_eq!(code_from_draws(&vec![0, 1, 36, 3, 4]), None);
    assert_eq!(code_from_draws(&vec![usize::MAX]), None);
    assert_eq!(code_from_draws(&vec![35, 35, 35, 35, 36]), None);
}

#[test]
fn a_text_against_itself_gets_the_full_score() {
    assert_eq!(FULL_SCORE, 100);
    assert_eq!(grade(&[1], &[1]), 100);
    assert_eq!(grade(&[3, -4, 12], &[3, -4, 12]), 100);
    assert_eq!(grade(&[i16::MAX, i16::MIN, 1], &[i16::MAX, i16::MIN, 1]), 100);
    assert_eq!(grade(&[2, 4, 6], &[1, 2, 3]), 100);
}

#[test]
fn opposite_texts_get_nothing() {
    assert_eq!(grade(&[1, 2, 3], &[-1, -2, -3]), 0);
    assert_eq!(grade(&[i16::MIN], &[i16::MAX]), 0);
}

#[test]
fn texts_with_nothing_in_common_get_half() {
    assert_eq!(grade(&[1, 0], &[0, 1]), 50);
    assert_eq!(grade(&[3, 4], &[-4, 3]), 50);
}

#[test]
fn grades_in_between() {
    // cosine 24/25: 50 * 0.96 + 50 = 98
    assert_eq!(grade(&[3, 4], &[4, 3]), 98);
    // cosine 1/sqrt(2): 85.36 rounds down
    assert_eq!(grade(&[1, 0], &[1, 1]), 85);
    // cosine -1/sqrt(2): 14.64 rounds up
    assert_eq!(grade(&[1, 0], &[-1, 1]), 15);
    // cosine 3/5: 80
    assert_eq!(grade(&[1, 0], &[3, 4]), 80);
    // cosine -4/5: 10
    assert_eq!(grade(&[0, 1], &[3, -4]), 10);
}

#[test]
fn a_half_goes_up() {
    // |b|^2 = 1 + 9801 + 196 + 1 + 1 = 10000, so the cosine is 1/100 and
    // the grade 50.5 before rounding
    let a = [1, 0, 0, 0, 0];
    let b = [1, 99, 14, 1, 1];
    assert_eq!(grade(&a, &b), 51);
    // cosine -1/100: 49.5 before rounding
    let c = [-1, 99, 14, 1, 1];
    assert_eq!(grade(&a, &c), 50);
    // |e|^2 = 9 + 9801 + 169 + 16 + 4 + 1 = 10000, so the cosines are 3/100
    // and -3/100, and the grades 51.5 and 48.5 before rounding
    let e = [3, 99, 13, 4, 2, 1];
    assert_eq!(grade(&[1, 0, 0, 0, 0, 0], &e), 52);
    assert_eq!(grade(&[-1, 0, 0, 0, 0, 0], &e), 49);
}

#[test]
fn the_grade_does_not_depend_on_the_order() {
    let vectors: [&[i16]; 6] =
        [&[1, 2, 3], &[-7, 0, 5], &[100, -100, 1], &[0, 0, 1], &[32767, 1, -32768], &[5, 5]];
    for a in vectors {
        for b in vectors {
            assert_eq!(grade(a, b), grade(b, a), "{:?} {:?}", a, b);
        }
    }
}

#[test]
fn the_grade_is_the_rounded_cosine() {
    let mut seed: u32 = 12345;
    let mut next = move || {
        seed = seed.wrapping_mul(1_103_515_245).wrapping_add(12_345);
        ((seed >> 8) % 2001) as i16 - 1000
    };
    for _ in 0..500 {
        let a: Vec<i16> = (0..16).map(|_| next()).collect();
        let b: Vec<i16> = (0..16).map(|_| next()).collect();
        let got = grade(&a, &b);
        assert!(got <= 100);
        assert_eq!(got, grade_in_floats(&a, &b), "{:?} {:?}", a, b);
    }
}

#[test]
fn a_text_without_a_direction_gets_nothing() {
    assert_eq!(grade(&[0, 0, 0], &[1, 2, 3]), 0);
    assert_eq!(grade(&[1, 2, 3], &[0, 0, 0]), 0);
    assert_eq!(grade(&[0, 0], &[0, 0]), 0);
    assert_eq!(grade(&[], &[1]), 0);
    assert_eq!(grade(&[], &[]), 0);
}

#[test]
fn components_without_a_partner_count_for_the_length_only() {
    // dot = 3, lengths 5 and 1: cosine 3/5
    assert_eq!(grade(&[3, 4], &[1]), 80);
    assert_eq!(grade(&[1], &[3, 4]), 80);
}

#[test]
fn the_largest_embeddings_are_graded() {
    let a = vec![i16::MIN; MAX_DIMENSION];
    let b = vec![i16::MAX; MAX_DIMENSION];
    let a = Embedding::new(a).expect("as many components as allowed");
    let b = Embedding::new(b).expect("as many components as allowed");
    assert_eq!(a.dimension(), MAX_DIMENSION);
    assert_eq!(calculate_similarity(&a, &a), 100);
    assert_eq!(calculate_similarity(&a, &b), 0);
}

#[test]
fn an_embedding_has_a_limit() {
    assert_eq!(MAX_DIMENSION, 1_048_576);
    assert!(Embedding::new(vec![1; MAX_DIMENSION + 1]).is_none());
    let e = embedding(&[4, 5, 6]);
    assert_eq!(e.dimension(), 3);
    assert_eq!(e.values(), &vec![4, 5, 6]);
}

#[test]
fn phases_have_names() {
    let all = [
        (Phase::Lobby, "waiting"),
        (Phase::Imagining, "imagining"),
        (Phase::Guessing, "guessing"),
        (Phase::Scoring, "scoring"),
        (Phase::Complete, "complete"),
    ];
    for (phase, name) in all {
        assert_eq!(phase.name(), name);
        assert_eq!(Phase::from_name(name), Some(phase));
    }
    assert_eq!(Phase::from_name("Lobby"), None);
    assert_eq!(Phase::from_name(""), None);
    assert_eq!(Phase::from_name("waiting "), None);
}

#[test]
fn a_token_names_its_user() {
    assert_eq!(generate_jwt_token("u-1"), "dummy_token_u-1");
    assert_eq!(generate_jwt_token(""), "dummy_token_");
}

#[test]
fn a_user_is_signed_up_unless_the_name_is_taken() {
    assert!(create_user(true).is_none());
    let account = create_user(false).expect("a free name");
    assert_eq!(account.user_id.len(), 36);
    assert_eq!(account.token, format!("dummy_token_{}", account.user_id));
    let other = create_user(false).expect("a free name");
    assert_ne!(account.user_id, other.user_id);
}

#[test]
fn the_model_names_the_provider() {
    let ask = |model: &str| RequestPayload {
        model: model.to_string(),
        messages: vec![Message { role: "user".to_string(), content: "hello".to_string() }],
    };
    assert_eq!(ask("north-2").provider("north"), Provider::Anthropic);
    assert_eq!(ask("north").provider("north"), Provider::Anthropic);
    assert_eq!(ask("gpt-4").provider("north"), Provider::OpenAi);
    assert_eq!(ask("nort").provider("north"), Provider::OpenAi);
    assert_eq!(ask("North-2").provider("north"), Provider::OpenAi);
    assert_eq!(ask("my-north").provider("north"), Provider::OpenAi);
    assert_eq!(ask("").provider("north"), Provider::OpenAi);
    assert_eq!(ask("nörth-2").provider("north"), Provider::OpenAi);
    assert_eq!(ask("nörth-2").provider("nör"), Provider::Anthropic);
    assert_eq!(ask("gpt-4").provider(""), Provider::Anthropic);
    assert_eq!(Provider::Anthropic.chat_endpoint(), "https://api.anthropic.com/v1/complete");
    assert_eq!(Provider::OpenAi.chat_endpoint(), "https://api.openai.com/v1/chat/completions");
    assert_eq!(Provider::Anthropic.key_variable(), "ANTHROPIC_API_KEY");
    assert_eq!(Provider::OpenAi.key_variable(), "OPENAI_API_KEY");
}

#[test]
fn a_guess_is_embedded_with_its_prompt() {
    let payload = ScoreGuessPayload { prompt: "a cat".to_string(), guess: "a kitten".to_string() };
    let request = EmbeddingRequestPayload::for_guess(payload);
    assert_eq!(request.model, "text-embedding-ada-002");
    assert_eq!(request.input, vec!["a cat".to_string(), "a kitten".to_string()]);
}
