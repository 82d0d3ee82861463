use api_sample::bearer::{extract_token, AuthFailure};
use api_sample::decimal::{read_int, write_int};
use api_sample::escape::{read_text, write_escaped};
use api_sample::jwt::{ApiClaims, ApiJwt, DecodeError, UserDto};
use api_sample::payload::{read_payload, write_payload};

/// A small generator of numbers that gives the same run every time.
struct Numbers(u64);

impl Numbers {
    fn next(&mut self) -> u64 {
        self.0 = self.0.wrapping_mul(6364136223846793005).wrapping_add(1442695040888963407);
        self.0 >> 11
    }

    fn below(&mut self, bound: u64) -> u64 {
        self.next() % bound
    }

    fn text(&mut self, alphabet: &[char]) -> String {
        let len = self.below(12);
        (0..len).map(|_| alphabet[self.below(alphabet.len() as u64) as usize]).collect()
    }
}

const MIXED: [char; 16] = [
    'a', 'Z', '0', '.', ' ', '"', '\\', '\n', '\t', '\u{0}', '\u{1f}', '/', 'é', '山', '\u{10ffff}',
    '}',
];

#[test]
fn random_numbers_read_back() {
    let mut numbers = Numbers(1);
    for _ in 0..2000 {
        let shift = numbers.below(64) as u32;
        let n = (numbers.next() as i64).wrapping_shl(shift) >> numbers.below(64);
        let mut text = b"#".to_vec();
        write_int(&mut text, n);
        assert_eq!(&text[1..], n.to_string().as_bytes());
        let end = text.len();
        text.push(b',');
        assert_eq!(read_int(&text, 1), Some((n, end)));
    }
}

#[test]
fn random_texts_read_back() {
    let mut numbers = Numbers(2);
    for _ in 0..2000 {
        let len = numbers.below(20) as usize;
        let bytes: Vec<u8> = (0..len).map(|_| numbers.below(256) as u8).collect();
        let mut text = Vec::new();
        write_escaped(&mut text, &bytes);
        let end = text.len() + 1;
        text.extend_from_slice(b"\"tail\"");
        assert_eq!(read_text(&text, 0), Some((bytes, end)));
    }
}

#[test]
fn random_claims_survive_the_payload() {
    let mut numbers = Numbers(3);
    for _ in 0..500 {
        let now = (numbers.next() as i64) >> numbers.below(40);
        let user = UserDto { user_id: numbers.text(&MIXED), user_name: numbers.text(&MIXED) };
        let claims = ApiClaims::issue_at(now, &user);
        let payload = write_payload(&claims);
        let value: serde_json::Value = serde_json::from_slice(&payload).unwrap();
        assert_eq!(value["iat"].as_i64(), Some(now));
        assert_eq!(value["exp"].as_i64(), Some(now + 300));
        assert_eq!(value["user_id"].as_str(), Some(user.user_id.as_str()));
        assert_eq!(value["user_name"].as_str(), Some(user.user_name.as_str()));
        let back = read_payload(&payload).unwrap();
        assert_eq!(back.issued_at(), now);
        assert_eq!(back.expires_at(), now + 300);
        assert_eq!(back.subject(), "M.Furukawa");
        assert_eq!(back.user_id(), user.user_id);
        assert_eq!(back.user_name(), user.user_name);
    }
}

#[test]
fn random_damage_to_a_payload_is_noticed() {
    let mut numbers = Numbers(4);
    let user = UserDto { user_id: "u-001".to_string(), user_name: "Taro \"T\" Yamada".to_string() };
    let payload = write_payload(&ApiClaims::issue_at(1_700_000_000, &user));
    for _ in 0..2000 {
        let mut damaged = payload.clone();
        let at = numbers.below(damaged.len() as u64) as usize;
        match numbers.below(3) {
            0 => damaged[at] = damaged[at].wrapping_add(1 + numbers.below(255) as u8),
            1 => {
                damaged.remove(at);
            }
            _ => damaged.insert(at, numbers.below(256) as u8),
        }
        if let Some(claims) = read_payload(&damaged) {
            assert_eq!(write_payload(&claims), damaged);
            assert!(claims.issued_at() < claims.expires_at());
        }
    }
}

#[test]
fn random_tokens_round_trip_and_resist_damage() {
    let mut numbers = Numbers(5);
    let jwt = ApiJwt::new(b"a secret of the service");
    for _ in 0..200 {
        let now = numbers.below(4_000_000_000) as i64;
        let user = UserDto { user_id: numbers.text(&MIXED), user_name: numbers.text(&MIXED) };
        let token = jwt.encode(&ApiClaims::issue_at(now, &user));
        let back = jwt.decode_at(&token, now + numbers.below(301) as i64).unwrap();
        assert_eq!(back.user_id(), user.user_id);
        assert_eq!(back.user_name(), user.user_name);
        assert_eq!(
            jwt.decode_at(&token, now + 301 + numbers.below(1000) as i64).unwrap_err(),
            DecodeError::ExpiredSignature
        );
        let mut damaged: Vec<char> = token.chars().collect();
        let at = numbers.below(damaged.len() as u64) as usize;
        let other = if damaged[at] == 'A' { 'B' } else { 'A' };
        damaged[at] = other;
        let damaged: String = damaged.into_iter().collect();
        assert!(jwt.decode_at(&damaged, now).is_err());
    }
}

#[test]
fn random_headers_split_like_split_whitespace() {
    let alphabet = ['B', 'e', 'a', 'r', ' ', ' ', '\t', 'x', '.', '\u{3000}', '\u{a0}', 'é'];
    let mut numbers = Numbers(6);
    for round in 0..5000 {
        let mut header = numbers.text(&alphabet);
        if round % 2 == 0 {
            header = format!("Bearer{}", header);
        }
        let mut words = header.split_whitespace();
        let expected = match words.next() {
            Some("Bearer") => match words.next() {
                Some(token) => Ok(token.to_string()),
                None => Err(AuthFailure::TokenMissing),
            },
            _ => Err(AuthFailure::InvalidScheme),
        };
        assert_eq!(extract_token(Some(&header)), expected);
    }
}
