use std::collections::{BTreeMap, HashMap};
use vstd::prelude::*;
use crate::building::Apartment;
use crate::config::{Config, FloorInfo};
use crate::date::lemma_month_range;
use crate::date::{
    date_at, date_label, days_in_year, print_local_date, print_local_weekday, weekday_label,
    CalendarDate,
};

verus! {

/// The apartment a day belongs to: the rotation moved on to it, or it stood
/// still on an excluded day, for the given reason.
#[derive(Clone, Debug)]
pub enum ApartmentOfDay {
    CurrentApartment(Apartment),
    LastApartment(Apartment, String),
}

impl ApartmentOfDay {
    /// The state of the rotation on that day.
    pub open spec fn apartment(&self) -> Apartment {
        match self {
            ApartmentOfDay::CurrentApartment(app) => *app,
            ApartmentOfDay::LastApartment(app, _) => *app,
        }
    }

    /// What the calendar shows: the apartment, or the reason the day was left out.
    pub open spec fn occupant_label(&self) -> Seq<char> {
        match self {
            ApartmentOfDay::CurrentApartment(app) => app.label(),
            ApartmentOfDay::LastApartment(_, reason) => reason@,
        }
    }

    pub fn extract_appartment(&self) -> (r: &Apartment)
        ensures
            *r == self.apartment(),
    {
        match self {
            Self::CurrentApartment(app) => app,
            Self::LastApartment(app, _) => app,
        }
    }

    pub fn print_appartment(&self) -> (r: String)
        ensures
            r@ == self.occupant_label(),
    {
        match self {
            Self::CurrentApartment(app) => app.print(),
            Self::LastApartment(_, reason) => reason.clone(),
        }
    }
}

/// Why the rotation stands still on `date`: the name of the holiday it is, or
/// an empty reason for a Sunday where Sundays are left out; `None` on a day
/// that takes a rotation step.
pub open spec fn exclusion(date: CalendarDate, exclude_sunday: bool, holidays: Map<i64, String>) -> Option<
    Seq<char>,
> {
    if holidays.contains_key(date.spec_key()) {
        Some(holidays[date.spec_key()]@)
    } else if exclude_sunday && date.weekday == 0 {
        Some(Seq::empty())
    } else {
        None
    }
}

/// The day after `last_appartment`'s day: frozen on it where `date` is
/// excluded, else on the apartment that follows it.
pub open spec fn resolved(
    date: CalendarDate,
    last: Apartment,
    m: Map<u32, FloorInfo>,
    exclude_sunday: bool,
    holidays: Map<i64, String>,
    r: ApartmentOfDay,
) -> bool {
    match exclusion(date, exclude_sunday, holidays) {
        Some(reason) => r matches ApartmentOfDay::LastApartment(a, s) && a == last && s@ == reason,
        None => r matches ApartmentOfDay::CurrentApartment(a) && a == last.advanced(m),
    }
}

/// Decides the apartment of `date`, given the apartment of the day before.
pub fn create_appartment_of_day(
    date: CalendarDate,
    last_appartment: Apartment,
    position_map: &HashMap<u32, FloorInfo>,
    exclude_sunday: bool,
    holidays: &BTreeMap<i64, String>,
) -> (r: ApartmentOfDay)
    requires
        date.wf(),
        last_appartment.wf(position_map@),
    ensures
        resolved(date, last_appartment, position_map@, exclude_sunday, holidays@, r),
        r.apartment().wf(position_map@),
{
    match holidays.get(&date.key()) {
        Some(holiday_name) => ApartmentOfDay::LastApartment(last_appartment, holiday_name.clone()),
        None => {
            if exclude_sunday && date.weekday == 0 {
                ApartmentOfDay::LastApartment(last_appartment, String::new())
            } else {
                ApartmentOfDay::CurrentApartment(last_appartment.next(position_map))
            }
        },
    }
}

/// What the calendar shows of a day: its date, its day of the week, and the
/// apartment or the reason it was left out.
#[derive(Debug)]
pub struct DayHTMLData {
    pub date: String,
    pub day: String,
    pub appartment: String,
}

impl View for DayHTMLData {
    type V = (Seq<char>, Seq<char>, Seq<char>);

    open spec fn view(&self) -> (Seq<char>, Seq<char>, Seq<char>) {
        (self.date@, self.day@, self.appartment@)
    }
}

/// One day of the year and the apartment it belongs to.
#[derive(Debug)]
pub struct Day {
    pub date: CalendarDate,
    pub appartment: ApartmentOfDay,
}

impl Day {
    pub open spec fn wf(&self, m: Map<u32, FloorInfo>) -> bool {
        self.date.wf() && self.appartment.apartment().wf(m)
    }

    /// The record of the day that the calendar shows.
    pub open spec fn record(&self) -> (Seq<char>, Seq<char>, Seq<char>) {
        (date_label(self.date), weekday_label(self.date.weekday as int), self.appartment.occupant_label())
    }

    /// January 1st of `year`, following `appartment`, the apartment of the day before.
    pub fn new(
        year: u16,
        appartment: Apartment,
        position_map: &HashMap<u32, FloorInfo>,
        exclude_sunday: bool,
        holidays: &BTreeMap<i64, String>,
    ) -> (r: Day)
        requires
            appartment.wf(position_map@),
        ensures
            r.wf(position_map@),
            r.date == date_at(year as int, 1),
            resolved(r.date, appartment, position_map@, exclude_sunday, holidays@, r.appartment),
    {
        let date = CalendarDate::first_of_year(year);
        let appartment = create_appartment_of_day(
            date,
            appartment,
            position_map,
            exclude_sunday,
            holidays,
        );
        Day { date, appartment }
    }

    /// The following day, frozen on this day's apartment where it is
    /// excluded and one rotation step on otherwise; `None` once the year is over.
    pub fn next(
        &self,
        position_map: &HashMap<u32, FloorInfo>,
        exclude_sunday: bool,
        holidays: &BTreeMap<i64, String>,
    ) -> (r: Option<Day>)
        requires
            self.wf(position_map@),
        ensures
            r is Some <==> self.date.yearday < days_in_year(self.date.year as int),
            r matches Some(d) ==> {
                &&& d.wf(position_map@)
                &&& d.date == date_at(self.date.year as int, self.date.yearday + 1)
                &&& resolved(
                    d.date,
                    self.appartment.apartment(),
                    position_map@,
                    exclude_sunday,
                    holidays@,
                    d.appartment,
                )
            },
    {
        let date = match self.date.next_in_year() {
            Some(date) => date,
            None => return None,
        };
        let app = *self.appartment.extract_appartment();
        let appartment = create_appartment_of_day(
            date,
            app,
            position_map,
            exclude_sunday,
            holidays,
        );
        Some(Day { date, appartment })
    }

    /// The day as one line: date, day of the week and apartment, separated by spaces.
    pub fn print(&self) -> (r: String)
        ensures
            r@ == self.record().0 + " "@ + self.record().1 + " "@ + self.record().2,
    {
        let date = print_local_date(&self.date);
        let day = print_local_weekday(self.date.weekday);
        let appartment = self.appartment.print_appartment();
        date.concat(" ").concat(day.as_str()).concat(" ").concat(appartment.as_str())
    }

    pub fn create_html_data(&self) -> (r: DayHTMLData)
        ensures
            r@ == self.record(),
    {
        DayHTMLData {
            date: print_local_date(&self.date),
            day: print_local_weekday(self.date.weekday),
            appartment: self.appartment.print_appartment(),
        }
    }
}

/// The apartment of day `yearday` of `year`, where the rotation stood at
/// `seed` on the day before January 1st: a rotation step for each day that is
/// not excluded.
pub open spec fn apartment_on(
    year: int,
    yearday: int,
    seed: Apartment,
    m: Map<u32, FloorInfo>,
    exclude_sunday: bool,
    holidays: Map<i64, String>,
) -> Apartment
    decreases yearday,
{
    let before = if yearday <= 1 {
        seed
    } else {
        apartment_on(year, yearday - 1, seed, m, exclude_sunday, holidays)
    };
    if exclusion(date_at(year, yearday), exclude_sunday, holidays) is Some {
        before
    } else {
        before.advanced(m)
    }
}

/// The record that the calendar shows for day `yearday` of `year`.
pub open spec fn record_on(
    year: int,
    yearday: int,
    seed: Apartment,
    m: Map<u32, FloorInfo>,
    exclude_sunday: bool,
    holidays: Map<i64, String>,
) -> (Seq<char>, Seq<char>, Seq<char>) {
    let date = date_at(year, yearday);
    let occupant = match exclusion(date, exclude_sunday, holidays) {
        Some(reason) => reason,
        None => apartment_on(year, yearday, seed, m, exclude_sunday, holidays).label(),
    };
    (date_label(date), weekday_label(date.weekday as int), occupant)
}

/// The month of a date, counted from 0 for January.
pub open spec fn month_index(date: CalendarDate) -> i8 {
    (date.month - 1) as i8
}

/// The records of the first `n` days of `year`, each with its month.
pub open spec fn records_until(
    year: int,
    n: int,
    seed: Apartment,
    m: Map<u32, FloorInfo>,
    exclude_sunday: bool,
    holidays: Map<i64, String>,
) -> Seq<(i8, (Seq<char>, Seq<char>, Seq<char>))>
    decreases n,
{
    if n <= 0 {
        Seq::empty()
    } else {
        records_until(year, n - 1, seed, m, exclude_sunday, holidays).push(
            (month_index(date_at(year, n)), record_on(year, n, seed, m, exclude_sunday, holidays)),
        )
    }
}

/// `record` added at the end of the records of `month`.
pub open spec fn group_step<R>(g: Map<i8, Seq<R>>, month: i8, record: R) -> Map<i8, Seq<R>> {
    g.insert(
        month,
        if g.contains_key(month) {
            g[month].push(record)
        } else {
            seq![record]
        },
    )
}

/// Records grouped by their month, each month's in the order given.
pub open spec fn group_by_month<R>(s: Seq<(i8, R)>) -> Map<i8, Seq<R>>
    decreases s.len(),
{
    if s.len() == 0 {
        Map::empty()
    } else {
        group_step(group_by_month(s.drop_last()), s.last().0, s.last().1)
    }
}

/// The records of each month, counted from 0 for January, in date order.
pub struct YearMap(pub HashMap<i8, Vec<DayHTMLData>>);

pub open spec fn year_map_view(m: Map<i8, Vec<DayHTMLData>>) -> Map<
    i8,
    Seq<(Seq<char>, Seq<char>, Seq<char>)>,
> {
    m.map_values(|v: Vec<DayHTMLData>| v@.map_values(|d: DayHTMLData| d@))
}

fn add_record(year_map: &mut HashMap<i8, Vec<DayHTMLData>>, month: i8, record: DayHTMLData)
    ensures
        year_map_view(final(year_map)@) == group_step(year_map_view(old(year_map)@), month, record@),
{
    match year_map.remove(&month) {
        Some(mut days) => {
            let ghost before = days@;
            days.push(record);
            assert(days@.map_values(|d: DayHTMLData| d@) =~= before.map_values(
                |d: DayHTMLData| d@,
            ).push(record@));
            year_map.insert(month, days);
        },
        None => {
            let days = vec![record];
            assert(days@.map_values(|d: DayHTMLData| d@) =~= seq![record@]);
            year_map.insert(month, days);
        },
    }
    assert(year_map_view(year_map@) =~= group_step(year_map_view(old(year_map)@), month, record@));
}

/// The calendar of `year`, where the rotation stood at `last_apartment` on
/// the day before January 1st: each day's record, grouped by month.
pub fn create_full_year(
    config: &Config,
    year: u16,
    last_apartment: Apartment,
    exclude_sunday: bool,
    holidays: &BTreeMap<i64, String>,
) -> (r: YearMap)
    requires
        last_apartment.wf(config.position_map@),
    ensures
        year_map_view(r.0@) == group_by_month(
            records_until(
                year as int,
                days_in_year(year as int),
                last_apartment,
                config.position_map@,
                exclude_sunday,
                holidays@,
            ),
        ),
        total_records(year_map_view(r.0@)) == days_in_year(year as int),
        forall|k: i8| #[trigger] r.0@.contains_key(k) ==> 0 <= k < 12,
{
    let ghost m = config.position_map@;
    let ghost hol = holidays@;
    let ghost y = year as int;
    let mut year_map: HashMap<i8, Vec<DayHTMLData>> = HashMap::new();
    let mut current_day = Day::new(
        year,
        last_apartment,
        &config.position_map,
        exclude_sunday,
        holidays,
    );
    proof {
        lemma_month_range(y, 1);
    }
    let month: i8 = current_day.date.month as i8 - 1;
    assert(year_map_view(year_map@) =~= Map::empty());
    let record = current_day.create_html_data();
    assert(record@ == record_on(y, 1, last_apartment, m, exclude_sunday, hol));
    add_record(&mut year_map, month, record);
    proof {
        assert(records_until(y, 1, last_apartment, m, exclude_sunday, hol).drop_last()
            =~= records_until(y, 0, last_apartment, m, exclude_sunday, hol));
        assert(group_by_month(records_until(y, 0, last_apartment, m, exclude_sunday, hol))
            =~= Map::empty());
        assert(month == month_index(date_at(y, 1)));
        assert(year_map_view(year_map@) =~= group_by_month(
            records_until(y, 1, last_apartment, m, exclude_sunday, hol),
        ));
    }
    loop
        invariant
            m == config.position_map@,
            hol == holidays@,
            y == year as int,
            current_day.wf(m),
            current_day.date == date_at(y, current_day.date.yearday as int),
            current_day.date.year == y,
            current_day.appartment.apartment() == apartment_on(
                y,
                current_day.date.yearday as int,
                last_apartment,
                m,
                exclude_sunday,
                hol,
            ),
            year_map_view(year_map@) == group_by_month(
                records_until(
                    y,
                    current_day.date.yearday as int,
                    last_apartment,
                    m,
                    exclude_sunday,
                    hol,
                ),
            ),
        ensures
            current_day.date.yearday == days_in_year(y),
        decreases days_in_year(y) - current_day.date.yearday,
    {
        match current_day.next(&config.position_map, exclude_sunday, holidays) {
            Some(valid_day) => {
                let ghost k = valid_day.date.yearday as int;
                proof {
                    lemma_month_range(y, k);
                }
                let current_month: i8 = valid_day.date.month as i8 - 1;
                let record = valid_day.create_html_data();
                assert(record@ == record_on(y, k, last_apartment, m, exclude_sunday, hol));
                add_record(&mut year_map, current_month, record);
                current_day = valid_day;
                assert(records_until(y, k, last_apartment, m, exclude_sunday, hol).drop_last()
                    == records_until(y, k - 1, last_apartment, m, exclude_sunday, hol));
            },
            None => break,
        }
    }
    proof {
        lemma_year_length(y, last_apartment, m, exclude_sunday, hol);
        assert forall|k: i8| #[trigger] year_map@.contains_key(k) implies 0 <= k < 12 by {
            assert(year_map_view(year_map@).contains_key(k));
        }
    }
    YearMap(year_map)
}

/// An excluded day never takes a rotation step: its apartment is that of the
/// day before (the seed, on January 1st), and the calendar shows the reason.
pub proof fn lemma_exclusion_freezes(
    year: int,
    yearday: int,
    seed: Apartment,
    m: Map<u32, FloorInfo>,
    exclude_sunday: bool,
    holidays: Map<i64, String>,
)
    requires
        1 <= yearday,
        exclusion(date_at(year, yearday), exclude_sunday, holidays) is Some,
    ensures
        apartment_on(year, yearday, seed, m, exclude_sunday, holidays) == if yearday == 1 {
            seed
        } else {
            apartment_on(year, yearday - 1, seed, m, exclude_sunday, holidays)
        },
        record_on(year, yearday, seed, m, exclude_sunday, holidays).2 == exclusion(
            date_at(year, yearday),
            exclude_sunday,
            holidays,
        )->Some_0,
{
}

/// The number of records in the months before `month`.
pub open spec fn records_before<R>(g: Map<i8, Seq<R>>, month: int) -> int
    decreases month,
{
    if month <= 0 {
        0
    } else {
        records_before(g, month - 1) + if g.contains_key((month - 1) as i8) {
            g[(month - 1) as i8].len() as int
        } else {
            0
        }
    }
}

/// The number of records in the twelve months.
pub open spec fn total_records<R>(g: Map<i8, Seq<R>>) -> int {
    records_before(g, 12)
}

proof fn lemma_records_before_step<R>(g: Map<i8, Seq<R>>, month: i8, record: R, n: int)
    requires
        0 <= month,
        0 <= n <= 12,
    ensures
        records_before(group_step(g, month, record), n) == records_before(g, n) + if month < n {
            1int
        } else {
            0int
        },
    decreases n,
{
    if n > 0 {
        lemma_records_before_step(g, month, record, n - 1);
    }
}

proof fn lemma_records_before_empty<R>(g: Map<i8, Seq<R>>, n: int)
    requires
        g == Map::<i8, Seq<R>>::empty(),
    ensures
        records_before(g, n) == 0,
    decreases n,
{
    if n > 0 {
        lemma_records_before_empty(g, n - 1);
    }
}

proof fn lemma_group_total<R>(s: Seq<(i8, R)>)
    requires
        forall|i: int| 0 <= i < s.len() ==> 0 <= #[trigger] s[i].0 < 12,
    ensures
        total_records(group_by_month(s)) == s.len(),
        forall|k: i8| #[trigger] group_by_month(s).contains_key(k) ==> 0 <= k < 12,
    decreases s.len(),
{
    if s.len() > 0 {
        let t = s.drop_last();
        assert forall|i: int| 0 <= i < t.len() implies 0 <= #[trigger] t[i].0 < 12 by {
            assert(t[i] == s[i]);
        }
        lemma_group_total(t);
        assert(s.drop_last() == t);
        assert(0 <= s[s.len() - 1].0 < 12);
        lemma_records_before_step(group_by_month(t), s.last().0, s.last().1, 12);
    } else {
        lemma_records_before_empty(group_by_month(s), 12);
    }
}

proof fn lemma_records_until_shape(
    year: int,
    n: int,
    seed: Apartment,
    m: Map<u32, FloorInfo>,
    exclude_sunday: bool,
    holidays: Map<i64, String>,
)
    requires
        0 <= n,
    ensures
        records_until(year, n, seed, m, exclude_sunday, holidays).len() == n,
        forall|i: int|
            0 <= i < n ==> 0 <= #[trigger] records_until(
                year,
                n,
                seed,
                m,
                exclude_sunday,
                holidays,
            )[i].0 < 12,
    decreases n,
{
    if n > 0 {
        lemma_records_until_shape(year, n - 1, seed, m, exclude_sunday, holidays);
        lemma_month_range(year, n);
        let s = records_until(year, n, seed, m, exclude_sunday, holidays);
        let t = records_until(year, n - 1, seed, m, exclude_sunday, holidays);
        assert forall|i: int| 0 <= i < n implies 0 <= #[trigger] s[i].0 < 12 by {
            if i < n - 1 {
                assert(s[i] == t[i]);
            }
        }
    }
}

/// A year's calendar holds one record for each of its days, spread over the
/// twelve months.
pub proof fn lemma_year_length(
    year: int,
    seed: Apartment,
    m: Map<u32, FloorInfo>,
    exclude_sunday: bool,
    holidays: Map<i64, String>,
)
    ensures
        ({
            let g = group_by_month(
                records_until(year, days_in_year(year), seed, m, exclude_sunday, holidays),
            );
            &&& total_records(g) == days_in_year(year)
            &&& forall|k: i8| #[trigger] g.contains_key(k) ==> 0 <= k < 12
        }),
{
    lemma_records_until_shape(year, days_in_year(year), seed, m, exclude_sunday, holidays);
    lemma_group_total(records_until(year, days_in_year(year), seed, m, exclude_sunday, holidays));
}

} // verus!
