use code_hunt::reindeer::{
    cursed_candy_eating_contest, reindeer_cheer, Reindeer, ReindeerDetails,
};

fn deer(name: &str, strength: u32) -> Reindeer {
    Reindeer { name: name.to_string(), strength }
}

fn details(
    name: &str,
    strength: u32,
    speed_tenths: u32,
    height: u32,
    antler_width: u32,
    snow_magic_power: u32,
    favorite_food: &str,
    candies_eaten_yesterday: u32,
) -> ReindeerDetails {
    ReindeerDetails {
        name: name.to_string(),
        strength,
        speed_tenths,
        height,
        antler_width,
        snow_magic_power,
        favorite_food: favorite_food.to_string(),
        candies_eaten_yesterday,
    }
}

#[test]
fn strength_sum() {
    let deers = vec![deer("Dasher", 5), deer("Dancer", 6), deer("Prancer", 4)];
    assert_eq!(reindeer_cheer(&deers), "15");
}

#[test]
fn strength_sum_of_empty_list_is_zero() {
    let deers: Vec<Reindeer> = Vec::new();
    assert_eq!(reindeer_cheer(&deers), "0");
}

#[test]
fn strength_sum_does_not_overflow() {
    let deers = vec![deer("Huge", u32::MAX), deer("Huger", u32::MAX)];
    assert_eq!(reindeer_cheer(&deers), "8589934590");
}

#[test]
fn contest_with_distinct_winners() {
    // Dancer is fastest (speed 48.2 gives key 482), Steven is tallest, has
    // the strongest snow magic and ate the most candies.
    let deers = vec![
        details("Dancer", 6, 482, 65, 8, 9001, "haybales", 4),
        details("Steven", 4, 405, 90, 140, 9007, "grass", 11),
    ];
    let r = cursed_candy_eating_contest(&deers).unwrap();
    assert_eq!(
        r.fastest,
        "Speeding past the finish line with a strength of 6 is Dancer"
    );
    assert_eq!(r.tallest, "Steven is standing tall with his 140 cm wide antlers");
    assert_eq!(
        r.magician,
        "Steven could blast you away with a snow magic power of 9007"
    );
    assert_eq!(r.consumer, "Steven ate lots of candies, but also some grass");
}

#[test]
fn contest_ties_go_to_the_first() {
    let deers = vec![
        details("First", 1, 100, 50, 10, 300, "moss", 7),
        details("Second", 2, 100, 50, 20, 300, "lichen", 7),
    ];
    let r = cursed_candy_eating_contest(&deers).unwrap();
    assert_eq!(
        r.fastest,
        "Speeding past the finish line with a strength of 1 is First"
    );
    assert_eq!(r.tallest, "First is standing tall with his 10 cm wide antlers");
    assert_eq!(
        r.magician,
        "First could blast you away with a snow magic power of 300"
    );
    assert_eq!(r.consumer, "First ate lots of candies, but also some moss");
}

#[test]
fn contest_rejects_an_empty_list() {
    let deers: Vec<ReindeerDetails> = Vec::new();
    assert!(cursed_candy_eating_contest(&deers).is_err());
}
