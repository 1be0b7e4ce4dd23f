use shardkv::add;
use shardkv::scores::TestResult;
use shardkv::screen::AnotherScreenDefinition;
use shardkv::screen::Button;
use shardkv::screen::Screen;
use shardkv::screen::TextField;
use shardkv::screen::Widget;
use shardkv::summary::Article;
use shardkv::summary::News;
use shardkv::summary::Pair;
use shardkv::summary::Summary;
use shardkv::summary::create_summarizable;

#[test]
fn add_sums_its_arguments() {
    let sum = add(2, 3);
    assert_eq!(sum, 5);
}

#[test]
fn screen_renders_components_in_order() {
    let screen = Screen {
        components: vec![
            Widget::Button(Button {
                width: 50,
                height: 10,
                label: String::from("OK"),
            }),
            Widget::TextField(TextField {
                width: 100,
                height: 20,
                text: String::from("Enter your name"),
            }),
        ],
    };
    let out = screen.run();
    assert_eq!(out, vec!["OK", "Enter your name"]);
}

#[test]
fn static_screen_renders_buttons_in_order() {
    let screen = AnotherScreenDefinition {
        components: vec![
            Button {
                width: 1,
                height: 1,
                label: String::from("Yes"),
            },
            Button {
                width: 1,
                height: 1,
                label: String::from("No"),
            },
        ],
    };
    let out = screen.run();
    assert_eq!(out, vec!["Yes", "No"]);
}

#[test]
fn article_summary_joins_headline_and_content() {
    let article = Article {
        headline: String::from("Breaking News"),
        content: String::from("Rust is awesome!"),
    };
    assert_eq!(article.summarize(), "Breaking News: Rust is awesome!");
    assert_eq!(article.default_summary(), "(Read more...)");
}

#[test]
fn news_summary_names_author_and_location() {
    let news = News {
        headline: String::from("Local News"),
        location: String::from("Somewhere"),
        author: String::from("Someone"),
        content: String::from("More Rust news!"),
    };
    assert_eq!(news.summarize(), "Local News, by Someone (Somewhere)");
}

#[test]
fn created_summarizable_has_the_sample_summary() {
    let item = create_summarizable();
    assert_eq!(item.summarize(), "Latest News, by Anyone (Anywhere)");
}

#[test]
fn pair_keeps_both_values() {
    let p = Pair::new(3, 9);
    assert_eq!(p.x, 3);
    assert_eq!(p.y, 9);
}

#[test]
fn apply_curve_raises_every_score() {
    let mut result = TestResult {
        scores: vec![60, 70, 80],
        curve: Some(5),
    };
    assert_eq!(result.get_curve(), &Some(5));
    result.apply_curve();
    assert_eq!(result.scores, vec![65, 75, 85]);
}

#[test]
fn apply_curve_without_curve_changes_nothing() {
    let mut result = TestResult {
        scores: vec![60, 70, 80],
        curve: None,
    };
    result.apply_curve();
    assert_eq!(result.scores, vec![60, 70, 80]);
}
