use letter_shop::letter_pool::LetterPool;

#[test]
fn test_new() {
    let lp: LetterPool = LetterPool::new();

    let expected: Vec<char> = vec![
        'A', 'B', 'C', 'D', 'E', 'F', 'G', 'H', 'I', 'J', 'K', 'L', 'M', 'N', 'O', 'P', 'Q',
        'R', 'S', 'T', 'U', 'V', 'W', 'X', 'Y', 'Z',
    ];
    for i in 0..expected.len() {
        assert_eq!(expected[i], lp.available()[i]);
    }
    assert_eq!(lp.bought().is_empty(), true);
}

#[test]
fn test_is_letter_available() {
    let lp: LetterPool = LetterPool::new();

    assert_eq!(lp.is_letter_available('a'), false);
    assert_eq!(lp.is_letter_available('A'), true);
}

#[test]
fn test_buy_letter() {
    let mut lp: LetterPool = LetterPool::new();

    assert_eq!(lp.is_letter_available('A'), true);
    lp.buy_letter('A');
    assert_eq!(lp.is_letter_available('A'), false);

    assert_eq!(lp.bought().contains(&'A'), true);
}

#[test]
fn test_display_letter_pool() {
    let v1: Vec<char> = Vec::new();
    assert_eq!(LetterPool::display_letter_pool(&v1), "[]");
    let v2: Vec<char> = vec!['A', 'B', 'C'];
    assert_eq!(LetterPool::display_letter_pool(&v2), "[ A ; B ; C ]");
}

#[test]
fn buy_letter_twice_succeeds_then_fails() {
    let mut lp: LetterPool = LetterPool::new();

    assert_eq!(lp.buy_letter('A'), true);
    assert_eq!(lp.buy_letter('A'), false);

    let owned: Vec<char> = lp.bought().clone();
    assert_eq!(owned.iter().filter(|c| **c == 'A').count(), 1);
    assert_eq!(lp.available().contains(&'A'), false);
}

#[test]
fn buy_unavailable_letter_changes_nothing() {
    let mut lp: LetterPool = LetterPool::new();
    lp.buy_letter('B');
    let avail_before: Vec<char> = lp.available().clone();
    let bought_before: Vec<char> = lp.bought().clone();

    assert_eq!(lp.buy_letter('B'), false);
    assert_eq!(lp.buy_letter('b'), false);
    assert_eq!(lp.buy_letter('!'), false);

    assert_eq!(lp.available(), &avail_before);
    assert_eq!(lp.bought(), &bought_before);
}

#[test]
fn buying_keeps_the_alphabet_partition() {
    let mut lp: LetterPool = LetterPool::new();
    for c in ['Q', 'A', 'Z', 'A', 'M'] {
        lp.buy_letter(c);
    }
    assert_eq!(lp.available().len() + lp.bought().len(), 26);
    for c in 'A'..='Z' {
        let in_avail = lp.available().contains(&c);
        let in_bought = lp.bought().contains(&c);
        assert!(in_avail != in_bought);
    }
    assert_eq!(lp.bought(), &vec!['Q', 'A', 'Z', 'M']);
}

#[test]
fn display_letter_pool_single_letter() {
    let v: Vec<char> = vec!['A'];
    assert_eq!(LetterPool::display_letter_pool(&v), "[ A ]");
}

#[test]
fn bought_letters_keep_purchase_order_and_available_keeps_alphabet_order() {
    let mut lp: LetterPool = LetterPool::new();
    lp.buy_letter('C');
    lp.buy_letter('A');
    assert_eq!(lp.bought(), &vec!['C', 'A']);
    assert_eq!(lp.available()[0], 'B');
    assert_eq!(lp.available()[1], 'D');
    assert_eq!(lp.available().len(), 24);
}
