use vstd::prelude::*;

verus! {

/// The date shown beside a news item.
#[derive(Debug, Clone)]
pub struct Date {
    pub month: String,
    pub day_name: String,
    pub day: String,
}

/// One news panel of the school's home page.
#[derive(Debug, Clone)]
pub struct News {
    pub image: String,
    pub news_type: String,
    pub title: String,
    pub date: Date,
    pub description: String,
}

/// What a date holds, as text.
pub struct DateView {
    pub month: Seq<char>,
    pub day_name: Seq<char>,
    pub day: Seq<char>,
}

/// What a news item holds, as text.
pub struct NewsView {
    pub image: Seq<char>,
    pub news_type: Seq<char>,
    pub title: Seq<char>,
    pub date: DateView,
    pub description: Seq<char>,
}

impl View for Date {
    type V = DateView;

    open spec fn view(&self) -> DateView {
        DateView { month: self.month@, day_name: self.day_name@, day: self.day@ }
    }
}

impl View for News {
    type V = NewsView;

    open spec fn view(&self) -> NewsView {
        NewsView {
            image: self.image@,
            news_type: self.news_type@,
            title: self.title@,
            date: self.date@,
            description: self.description@,
        }
    }
}

} // verus!
