//! The fixed pool of advice templates.  Each template carries the
//! placeholder marker where the requester's display name is substituted.

use vstd::prelude::*;
use vstd::string::StringExecFns;

verus! {

/// A fixed ordered sequence of content templates available for random
/// selection.
pub struct Pool {
    templates: Vec<String>,
}

impl View for Pool {
    type V = Seq<Seq<char>>;

    /// The templates as sequences of characters.
    closed spec fn view(&self) -> Seq<Seq<char>> {
        self.templates.deep_view()
    }
}

impl Pool {
    /// A pool made of the given templates.
    pub fn from_templates(templates: Vec<String>) -> (p: Self)
        ensures
            p@ == templates.deep_view(),
    {
        Pool { templates }
    }

    /// How many templates the pool holds.
    pub fn len(&self) -> (n: usize)
        ensures
            n == self@.len(),
    {
        self.templates.len()
    }

    /// The template at index `i`.
    pub fn template(&self, i: usize) -> (t: &str)
        requires
            i < self@.len(),
        ensures
            t@ == self@[i as int],
    {
        self.templates[i].as_str()
    }
}

/// The advice pool of this responder: twenty templates, each addressed to
/// the requester through the placeholder marker.
pub fn advice_pool() -> (p: Pool)
    ensures
        p@.len() == 20,
{
    let mut v: Vec<String> = Vec::new();
    v.push(String::from_str("###, you a good person deserving of love ❤"));
    v.push(String::from_str(
        "###, every mistake you make is just an opportuniy to learn and better yourself 💪",
    ));
    v.push(String::from_str(
        "###, in times of trouble, turn to friends. A good friend can make all the difference in your life 😌",
    ));
    v.push(String::from_str(
        "Fear not, ###, for tomorrow may always bring a better day. If not tomorrow, then perhaps the day after that.",
    ));
    v.push(String::from_str("###, honing your mind for problem solving will serve you well 🧠"));
    v.push(String::from_str(
        "###, when something upsets you, ask yourself, \"Is this really worth letting it affect me?\" More often that not, you may find that the answer is no.",
    ));
    v.push(String::from_str(
        "###, a healthy interest in hobbies can be very fulfilling. Even the most diehard weeb is lucky to have found something to be passionate about, and can stem the onset of apathy.",
    ));
    v.push(String::from_str(
        "###, it can be helpful to write down your goals. Keeping track of where you want to be in life can be an actuallizing process.",
    ));
    v.push(String::from_str(
        "###, it can be helpful to write down the things you don't want to become. It is just as important to have something to run from as it is to have something to run toward.",
    ));
    v.push(String::from_str(
        "###, home is not a place. Home is the people with which you spend you life, the people that you support and those that support you. You can live almost anywhere as long as you have family or friends.",
    ));
    v.push(String::from_str(
        "###, even if you can get something done with a bad attitude, wouldn't it be nicer to find a positive outlook on it?",
    ));
    v.push(String::from_str(
        "###, a 1v5 is not winnable, but a 2v5 is. Anything is possible when you have a friend by your side.",
    ));
    v.push(String::from_str(
        "###, one day the Dark Lord will rise again, and he will rain fire on the mountains of man and sit on the throne of the Earth.",
    ));
    v.push(String::from_str(
        "###, before making a big decision, you may want to wait an amount of time proportional to how long that decision will affect your life. You may find that it is not what you wanted after all.",
    ));
    v.push(String::from_str(
        "###, there are people in the world who have perfect memories and are unable to forget anything. Make no mistake, this is a terrible curse. The ability to forget is the ability to move on.",
    ));
    v.push(String::from_str(
        "###, Don't keep a bad friend around out of nothing but loyalty. Someone who consistently makes the same bad decisions that burden you is not worthy of your friendship, and can be cut off without remorse.",
    ));
    v.push(String::from_str(
        "###, very few things a actually impossible. A great many things are very improbable. The challenge of the realistic optimist is deciding how unlikely is too unlikely.",
    ));
    v.push(String::from_str(
        "###, a game that seems lost at 20 minutes could be come back from and won a 50 minutes. Is it worth it though? You could just surrender at 20 and use that 30 minutes to play a new game.",
    ));
    v.push(String::from_str(
        "###, whenever you are dismayed at your own lack of initiative, remember the words of a wise old sage: \"Yesterday you said tomorrow, so JUST DO IT!\"",
    ));
    v.push(String::from_str(
        "###, when you find someone's behavior appalling, it may be useful to use words to get to the root of why they would do such a thing. Some people are beyond saving, others are actually reasonable and can be reformed via conversation.",
    ));
    Pool::from_templates(v)
}

} // verus!
