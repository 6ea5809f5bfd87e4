//! The state-transition and authorization engine.
//!
//! An [`AcademicChain`] value holds every record of one deployment: the
//! singleton configuration, the courses, the enrollments, the student
//! profiles, and the two ledgers (fungible credits and native currency)
//! that the external primitives maintain.  Each public operation checks
//! its preconditions in a fixed order, aborts with a named error on the
//! first violated one, and otherwise applies its whole effect; no
//! operation leaves a partial mutation behind.
//!
//! The host substrate authenticates callers and serializes operations
//! that touch the same records; the `caller` argument of an operation is
//! the identity the substrate verified.  Timestamps come in as `now`
//! arguments because only the host clock can produce them.

use crate::addressing::{
    config_address, config_seeds, course_address, course_seeds, certificate_mint_address,
    certificate_mint_seeds, derived_address, enrollment_address, enrollment_seeds,
    graduation_mint_address, graduation_mint_seeds, student_profile_address,
    student_profile_seeds,
};
use crate::constants::{DEFAULT_CREDIT_PRICE, MAX_COURSE_ID_LEN, MAX_COURSE_NAME_LEN, MAX_GRADE};
use crate::errors::AcademicChainError;
use crate::identity::Identity;
use crate::ledger::TokenLedger;
use crate::state::{str_bytes, Course, CourseEnrollment, ProgramConfig, StudentProfile};
use vstd::prelude::*;

verus! {

/// All records of one deployment of the academic-credit economy.
pub struct AcademicChain {
    /// The program identity under which record addresses are derived.
    pub program_id: Identity,
    /// The singleton configuration, absent until bootstrap.
    pub config: Option<ProgramConfig>,
    /// Courses, keyed by `course_id`.
    pub courses: Vec<Course>,
    /// Enrollments, keyed by `(student, course_id)`.
    pub enrollments: Vec<CourseEnrollment>,
    /// Profiles, keyed by `student`.
    pub profiles: Vec<StudentProfile>,
    /// Fungible credit balances, maintained by the external token ledger.
    pub credits: TokenLedger,
    /// Native-currency balances, maintained by the external transfer primitive.
    pub native: TokenLedger,
}

impl AcademicChain {
    /// Every record store keyed at most once, every record well formed.
    pub open spec fn wf(self) -> bool {
        &&& self.credits.wf()
        &&& self.native.wf()
        &&& forall|i: int, j: int|
            #![trigger self.courses@[i], self.courses@[j]]
            0 <= i < self.courses@.len() && 0 <= j < self.courses@.len() && i != j
                ==> self.courses@[i].course_id@ != self.courses@[j].course_id@
        &&& forall|i: int|
            0 <= i < self.courses@.len() ==> (#[trigger] self.courses@[i]).valid()
        &&& forall|i: int, j: int|
            #![trigger self.enrollments@[i], self.enrollments@[j]]
            0 <= i < self.enrollments@.len() && 0 <= j < self.enrollments@.len() && i != j
                ==> !(self.enrollments@[i].student == self.enrollments@[j].student
                    && self.enrollments@[i].course_id@ == self.enrollments@[j].course_id@)
        &&& forall|i: int|
            0 <= i < self.enrollments@.len() ==> (#[trigger] self.enrollments@[i]).valid()
        &&& forall|i: int, j: int|
            #![trigger self.profiles@[i], self.profiles@[j]]
            0 <= i < self.profiles@.len() && 0 <= j < self.profiles@.len() && i != j
                ==> self.profiles@[i].student != self.profiles@[j].student
    }

    // ----- the course store -----

    /// Whether a course record exists under `course_id`.
    pub open spec fn has_course(self, course_id: Seq<char>) -> bool {
        exists|i: int|
            0 <= i < self.courses@.len() && (#[trigger] self.courses@[i]).course_id@ == course_id
    }

    /// The index of the course record under `course_id`, if one exists.
    pub open spec fn course_index(self, course_id: Seq<char>) -> int {
        choose|i: int|
            0 <= i < self.courses@.len() && (#[trigger] self.courses@[i]).course_id@ == course_id
    }

    /// The course record under `course_id`.
    pub open spec fn course_at(self, course_id: Seq<char>) -> Course {
        self.courses@[self.course_index(course_id)]
    }

    /// In a well-formed chain a course's index is determined by its key.
    pub proof fn lemma_course_at_index(self, course_id: Seq<char>, i: int)
        requires
            self.wf(),
            0 <= i < self.courses@.len(),
            self.courses@[i].course_id@ == course_id,
        ensures
            self.has_course(course_id),
            self.course_index(course_id) == i,
            self.course_at(course_id) == self.courses@[i],
    {
        assert(self.has_course(course_id)) by {
            assert(self.courses@[i].course_id@ == course_id);
        }
        let j = self.course_index(course_id);
        assert(0 <= j < self.courses@.len() && self.courses@[j].course_id@ == course_id);
        assert(j == i);
    }

    // ----- the enrollment store -----

    /// Whether an enrollment record exists for `student` in `course_id`.
    pub open spec fn has_enrollment(self, student: Identity, course_id: Seq<char>) -> bool {
        exists|i: int|
            0 <= i < self.enrollments@.len() && (#[trigger] self.enrollments@[i]).student
                == student && self.enrollments@[i].course_id@ == course_id
    }

    /// The index of the enrollment record for `(student, course_id)`.
    pub open spec fn enrollment_index(self, student: Identity, course_id: Seq<char>) -> int {
        choose|i: int|
            0 <= i < self.enrollments@.len() && (#[trigger] self.enrollments@[i]).student
                == student && self.enrollments@[i].course_id@ == course_id
    }

    /// The enrollment record for `(student, course_id)`.
    pub open spec fn enrollment_at(self, student: Identity, course_id: Seq<char>) -> CourseEnrollment {
        self.enrollments@[self.enrollment_index(student, course_id)]
    }

    /// In a well-formed chain an enrollment's index is determined by its key.
    pub proof fn lemma_enrollment_at_index(self, student: Identity, course_id: Seq<char>, i: int)
        requires
            self.wf(),
            0 <= i < self.enrollments@.len(),
            self.enrollments@[i].student == student,
            self.enrollments@[i].course_id@ == course_id,
        ensures
            self.has_enrollment(student, course_id),
            self.enrollment_index(student, course_id) == i,
            self.enrollment_at(student, course_id) == self.enrollments@[i],
    {
        assert(self.has_enrollment(student, course_id)) by {
            assert(self.enrollments@[i].student == student);
        }
        let j = self.enrollment_index(student, course_id);
        assert(0 <= j < self.enrollments@.len() && self.enrollments@[j].student == student
            && self.enrollments@[j].course_id@ == course_id);
        assert(j == i);
    }

    // ----- the profile store -----

    /// Whether a profile record exists for `student`.
    pub open spec fn has_profile(self, student: Identity) -> bool {
        exists|i: int|
            0 <= i < self.profiles@.len() && (#[trigger] self.profiles@[i]).student == student
    }

    /// The index of the profile record for `student`, if one exists.
    pub open spec fn profile_index(self, student: Identity) -> int {
        choose|i: int|
            0 <= i < self.profiles@.len() && (#[trigger] self.profiles@[i]).student == student
    }

    /// The profile record for `student`.
    pub open spec fn profile_at(self, student: Identity) -> StudentProfile {
        self.profiles@[self.profile_index(student)]
    }

    /// In a well-formed chain a profile's index is determined by its key.
    pub proof fn lemma_profile_at_index(self, student: Identity, i: int)
        requires
            self.wf(),
            0 <= i < self.profiles@.len(),
            self.profiles@[i].student == student,
        ensures
            self.has_profile(student),
            self.profile_index(student) == i,
            self.profile_at(student) == self.profiles@[i],
    {
        assert(self.has_profile(student)) by {
            assert(self.profiles@[i].student == student);
        }
        let j = self.profile_index(student);
        assert(0 <= j < self.profiles@.len() && self.profiles@[j].student == student);
        assert(j == i);
    }

    /// Credits ever purchased by `student`; zero before the first purchase.
    pub open spec fn purchased_of(self, student: Identity) -> u64 {
        if self.has_profile(student) {
            self.profile_at(student).total_credits_purchased
        } else {
            0
        }
    }

    /// Credits ever spent by `student`; zero before the first purchase.
    pub open spec fn spent_of(self, student: Identity) -> u64 {
        if self.has_profile(student) {
            self.profile_at(student).total_credits_spent
        } else {
            0
        }
    }

    /// Completions recorded for `student`; zero before the first purchase.
    pub open spec fn completed_of(self, student: Identity) -> u16 {
        if self.has_profile(student) {
            self.profile_at(student).courses_completed
        } else {
            0
        }
    }

    // ----- construction -----

    /// A fresh deployment under `program_id`: no records, no balances.
    pub fn new(program_id: Identity) -> (r: AcademicChain)
        ensures
            r.wf(),
            r.program_id == program_id,
            r.config is None,
            r.courses@.len() == 0,
            r.enrollments@.len() == 0,
            r.profiles@.len() == 0,
            forall|x: Identity| r.credits.balance_of(x) == 0,
            forall|x: Identity| r.native.balance_of(x) == 0,
    {
        AcademicChain {
            program_id,
            config: None,
            courses: Vec::new(),
            enrollments: Vec::new(),
            profiles: Vec::new(),
            credits: TokenLedger::new(),
            native: TokenLedger::new(),
        }
    }

    // ----- exec lookups -----

    /// The index of the course record under `course_id`, if one exists.
    fn find_course(&self, course_id: &String) -> (r: Option<usize>)
        ensures
            match r {
                Some(i) => i < self.courses@.len() && self.courses@[i as int].course_id@
                    == course_id@,
                None => !self.has_course(course_id@),
            },
    {
        let n = self.courses.len();
        let mut k: usize = 0;
        while k < n
            invariant
                n == self.courses@.len(),
                k <= n,
                forall|j: int|
                    0 <= j < k ==> (#[trigger] self.courses@[j]).course_id@ != course_id@,
            decreases n - k,
        {
            if self.courses[k].course_id == *course_id {
                return Some(k);
            }
            k += 1;
        }
        None
    }

    /// The index of the enrollment record for `(student, course_id)`, if any.
    fn find_enrollment(&self, student: &Identity, course_id: &String) -> (r: Option<usize>)
        ensures
            match r {
                Some(i) => i < self.enrollments@.len() && self.enrollments@[i as int].student
                    == *student && self.enrollments@[i as int].course_id@ == course_id@,
                None => !self.has_enrollment(*student, course_id@),
            },
    {
        let n = self.enrollments.len();
        let mut k: usize = 0;
        while k < n
            invariant
                n == self.enrollments@.len(),
                k <= n,
                forall|j: int|
                    0 <= j < k ==> !((#[trigger] self.enrollments@[j]).student == *student
                        && self.enrollments@[j].course_id@ == course_id@),
            decreases n - k,
        {
            if self.enrollments[k].student == *student && self.enrollments[k].course_id
                == *course_id {
                return Some(k);
            }
            k += 1;
        }
        None
    }

    /// The index of the profile record for `student`, if one exists.
    fn find_profile(&self, student: &Identity) -> (r: Option<usize>)
        ensures
            match r {
                Some(i) => i < self.profiles@.len() && self.profiles@[i as int].student
                    == *student,
                None => !self.has_profile(*student),
            },
    {
        let n = self.profiles.len();
        let mut k: usize = 0;
        while k < n
            invariant
                n == self.profiles@.len(),
                k <= n,
                forall|j: int|
                    0 <= j < k ==> (#[trigger] self.profiles@[j]).student != *student,
            decreases n - k,
        {
            if self.profiles[k].student == *student {
                return Some(k);
            }
            k += 1;
        }
        None
    }

    // ----- bootstrap -----

    /// The outcome bootstrap decides for a pre-state.
    pub open spec fn initialize_result(self) -> Result<(), AcademicChainError> {
        if self.config is Some {
            Err(AcademicChainError::AlreadyInitialized)
        } else {
            Ok(())
        }
    }

    /// Create the singleton configuration if and only if it does not exist
    /// yet, with the default price and the nonce of its derived address.
    pub fn initialize(
        &mut self,
        authority: Identity,
        treasury: Identity,
        credit_mint: Identity,
    ) -> (r: Result<(), AcademicChainError>)
        requires
            old(self).wf(),
        ensures
            final(self).wf(),
            r == old(self).initialize_result(),
            r is Err ==> *final(self) == *old(self),
            r is Ok ==> {
                &&& final(self).config is Some
                &&& {
                    let c = final(self).config.unwrap();
                    &&& c.authority == authority
                    &&& c.treasury == treasury
                    &&& c.credit_mint == credit_mint
                    &&& c.credit_price == DEFAULT_CREDIT_PRICE
                    &&& c.bump == derived_address(
                        config_seeds(),
                        old(self).program_id.bytes@,
                    ).1
                }
                &&& final(self).program_id == old(self).program_id
                &&& final(self).courses@ == old(self).courses@
                &&& final(self).enrollments@ == old(self).enrollments@
                &&& final(self).profiles@ == old(self).profiles@
                &&& final(self).credits == old(self).credits
                &&& final(self).native == old(self).native
            },
    {
        if self.config.is_some() {
            return Err(AcademicChainError::AlreadyInitialized);
        }
        let pid = self.program_id;
        let (_config_id, bump) = config_address(&pid);
        self.config = Some(
            ProgramConfig {
                authority,
                credit_mint,
                treasury,
                credit_price: DEFAULT_CREDIT_PRICE,
                bump,
            },
        );
        Ok(())
    }

    // ----- course creation -----

    /// The outcome course creation decides for a pre-state and its inputs.
    /// The decision never depends on a disambiguation nonce: an occupied
    /// key stays refused whatever nonce a later derivation would pick.
    pub open spec fn create_course_result(
        self,
        course_id: Seq<char>,
        course_name: Seq<char>,
        required_credits: u64,
    ) -> Result<(), AcademicChainError> {
        if str_bytes(course_id).len() > MAX_COURSE_ID_LEN {
            Err(AcademicChainError::InvalidCourseId)
        } else if str_bytes(course_name).len() > MAX_COURSE_NAME_LEN {
            Err(AcademicChainError::InvalidCourseName)
        } else if required_credits == 0 {
            Err(AcademicChainError::InvalidCredits)
        } else if self.has_course(course_id) {
            Err(AcademicChainError::DuplicateCourse)
        } else {
            Ok(())
        }
    }

    /// Create a course.  Anyone may create one and name its instructor;
    /// only the identifier, name and credit requirement are validated.
    pub fn create_course(
        &mut self,
        course_id: String,
        course_name: String,
        instructor: Identity,
        required_credits: u64,
        now: i64,
    ) -> (r: Result<(), AcademicChainError>)
        requires
            old(self).wf(),
        ensures
            final(self).wf(),
            r == old(self).create_course_result(course_id@, course_name@, required_credits),
            r is Err ==> *final(self) == *old(self),
            r is Ok ==> {
                &&& final(self).has_course(course_id@)
                &&& {
                    let c = final(self).course_at(course_id@);
                    &&& c.course_id@ == course_id@
                    &&& c.course_name@ == course_name@
                    &&& c.instructor == instructor
                    &&& c.required_credits == required_credits
                    &&& c.is_active
                    &&& c.created_at == now
                    &&& c.bump == derived_address(
                        course_seeds(course_id@),
                        old(self).program_id.bytes@,
                    ).1
                }
                &&& final(self).courses@.len() == old(self).courses@.len() + 1
                &&& forall|id: Seq<char>|
                    #[trigger] final(self).has_course(id) <==> old(self).has_course(id) || id
                        == course_id@
                &&& forall|id: Seq<char>|
                    old(self).has_course(id) ==> #[trigger] final(self).course_at(id)
                        == old(self).course_at(id)
                &&& final(self).program_id == old(self).program_id
                &&& final(self).config == old(self).config
                &&& final(self).enrollments@ == old(self).enrollments@
                &&& final(self).profiles@ == old(self).profiles@
                &&& final(self).credits == old(self).credits
                &&& final(self).native == old(self).native
            },
    {
        if course_id.as_str().as_bytes().len() > MAX_COURSE_ID_LEN {
            return Err(AcademicChainError::InvalidCourseId);
        }
        if course_name.as_str().as_bytes().len() > MAX_COURSE_NAME_LEN {
            return Err(AcademicChainError::InvalidCourseName);
        }
        if required_credits == 0 {
            return Err(AcademicChainError::InvalidCredits);
        }
        if self.find_course(&course_id).is_some() {
            return Err(AcademicChainError::DuplicateCourse);
        }
        let pid = self.program_id;
        let (_course_addr, bump) = course_address(&course_id, &pid);
        let course = Course {
            course_id,
            course_name,
            instructor,
            required_credits,
            is_active: true,
            created_at: now,
            bump,
        };
        let n = self.courses.len();
        self.courses.push(course);
        proof {
            let nn: int = n as int;
            assert(forall|j: int|
                0 <= j < nn ==> (#[trigger] self.courses@[j]) == old(self).courses@[j]);
            assert(forall|j: int|
                0 <= j < nn ==> (#[trigger] old(self).courses@[j]).course_id@ != course_id@);
            assert(self.courses@[nn].course_id@ == course_id@);
            assert(self.wf());
            self.lemma_course_at_index(course_id@, nn);
            assert forall|id: Seq<char>|
                #[trigger] self.has_course(id) <==> old(self).has_course(id) || id
                    == course_id@ by {
                if self.has_course(id) {
                    let i: int = self.course_index(id);
                    assert(0 <= i < self.courses@.len() && self.courses@[i].course_id@ == id);
                    if i < nn {
                        old(self).lemma_course_at_index(id, i);
                    }
                }
                if old(self).has_course(id) {
                    let i: int = old(self).course_index(id);
                    assert(0 <= i < nn && old(self).courses@[i].course_id@ == id);
                    self.lemma_course_at_index(id, i);
                }
            }
            assert forall|id: Seq<char>| old(self).has_course(id) implies #[trigger] self.course_at(
                id,
            ) == old(self).course_at(id) by {
                let i: int = old(self).course_index(id);
                assert(0 <= i < nn && old(self).courses@[i].course_id@ == id);
                old(self).lemma_course_at_index(id, i);
                self.lemma_course_at_index(id, i);
            }
        }
        Ok(())
    }

    // ----- credit purchase -----

    /// The outcome a purchase decides for a pre-state and its inputs.
    pub open spec fn purchase_credits_result(self, caller: Identity, amount: u64) -> Result<
        (),
        AcademicChainError,
    > {
        if self.config is None {
            Err(AcademicChainError::NotInitialized)
        } else {
            let c = self.config.unwrap();
            if c.credit_price * amount > u64::MAX {
                Err(AcademicChainError::ArithmeticOverflow)
            } else {
                let cost = (c.credit_price * amount) as u64;
                if self.native.balance_of(caller) < cost {
                    Err(AcademicChainError::InsufficientFunds)
                } else if !self.native.can_transfer(caller, c.treasury, cost) {
                    Err(AcademicChainError::ArithmeticOverflow)
                } else if self.credits.balance_of(caller) + amount > u64::MAX {
                    Err(AcademicChainError::ArithmeticOverflow)
                } else if self.purchased_of(caller) + amount > u64::MAX {
                    Err(AcademicChainError::ArithmeticOverflow)
                } else {
                    Ok(())
                }
            }
        }
    }

    /// Purchase `amount` credits: move the cost in native currency from
    /// the caller to the treasury, mint `amount` credits to the caller
    /// (the configuration record acting as minting authority through its
    /// nonce), and create or update the caller's profile.
    pub fn purchase_credits(&mut self, caller: Identity, amount: u64, now: i64) -> (r: Result<
        (),
        AcademicChainError,
    >)
        requires
            old(self).wf(),
            amount > 0,
        ensures
            final(self).wf(),
            r == old(self).purchase_credits_result(caller, amount),
            r is Err ==> *final(self) == *old(self),
            r is Ok ==> {
                let c = old(self).config.unwrap();
                let cost = (c.credit_price * amount) as u64;
                &&& forall|x: Identity|
                    final(self).native.balance_of(x) == old(self).native.balance_after_transfer(
                        caller,
                        c.treasury,
                        cost,
                        x,
                    )
                &&& forall|x: Identity|
                    final(self).credits.balance_of(x) == (if x == caller {
                        (old(self).credits.balance_of(caller) + amount) as u64
                    } else {
                        old(self).credits.balance_of(x)
                    })
                &&& final(self).has_profile(caller)
                &&& forall|s: Identity|
                    #[trigger] final(self).has_profile(s) <==> old(self).has_profile(s) || s
                        == caller
                &&& {
                    let p = final(self).profile_at(caller);
                    &&& p.student == caller
                    &&& p.total_credits_purchased == old(self).purchased_of(caller) + amount
                    &&& p.total_credits_spent == old(self).spent_of(caller)
                    &&& p.courses_completed == old(self).completed_of(caller)
                    &&& p.graduation_nft == (if old(self).has_profile(caller) {
                        old(self).profile_at(caller).graduation_nft
                    } else {
                        None::<Identity>
                    })
                    &&& p.created_at == (if old(self).has_profile(caller) {
                        old(self).profile_at(caller).created_at
                    } else {
                        now
                    })
                    &&& p.bump == (if old(self).has_profile(caller) {
                        old(self).profile_at(caller).bump
                    } else {
                        derived_address(
                            student_profile_seeds(caller),
                            old(self).program_id.bytes@,
                        ).1
                    })
                }
                &&& forall|s: Identity|
                    s != caller && old(self).has_profile(s) ==> #[trigger] final(self).profile_at(
                        s,
                    ) == old(self).profile_at(s)
                &&& final(self).program_id == old(self).program_id
                &&& final(self).config == old(self).config
                &&& final(self).courses@ == old(self).courses@
                &&& final(self).enrollments@ == old(self).enrollments@
            },
    {
        let (price, treasury) = match &self.config {
            Some(c) => (c.credit_price, c.treasury),
            None => {
                return Err(AcademicChainError::NotInitialized);
            },
        };
        let cost = match price.checked_mul(amount) {
            Some(cost) => cost,
            None => {
                return Err(AcademicChainError::ArithmeticOverflow);
            },
        };
        let caller_native = self.native.balance(&caller);
        if caller_native < cost {
            return Err(AcademicChainError::InsufficientFunds);
        }
        if caller != treasury {
            let treasury_native = self.native.balance(&treasury);
            if cost > u64::MAX - treasury_native {
                return Err(AcademicChainError::ArithmeticOverflow);
            }
        }
        let caller_credits = self.credits.balance(&caller);
        if amount > u64::MAX - caller_credits {
            return Err(AcademicChainError::ArithmeticOverflow);
        }
        let profile_slot = self.find_profile(&caller);
        if let Some(i) = profile_slot {
            if amount > u64::MAX - self.profiles[i].total_credits_purchased {
                proof {
                    self.lemma_profile_at_index(caller, i as int);
                }
                return Err(AcademicChainError::ArithmeticOverflow);
            }
        }
        proof {
            if let Some(i) = profile_slot {
                self.lemma_profile_at_index(caller, i as int);
            }
        }
        match self.native.transfer(&caller, &treasury, cost) {
            Ok(()) => {},
            Err(e) => {
                proof {
                    assert(false);
                }
                return Err(e);
            },
        }
        match self.credits.deposit(&caller, amount) {
            Ok(()) => {},
            Err(e) => {
                proof {
                    assert(false);
                }
                return Err(e);
            },
        }
        match profile_slot {
            Some(i) => {
                let p = &self.profiles[i];
                let updated = StudentProfile {
                    student: p.student,
                    total_credits_purchased: p.total_credits_purchased + amount,
                    total_credits_spent: p.total_credits_spent,
                    courses_completed: p.courses_completed,
                    graduation_nft: p.graduation_nft,
                    created_at: p.created_at,
                    bump: p.bump,
                };
                self.profiles[i] = updated;
                proof {
                    let ii: int = i as int;
                    assert(forall|k: int|
                        0 <= k < self.profiles@.len() && k != ii
                            ==> #[trigger] self.profiles@[k] == old(self).profiles@[k]);
                    assert(self.profiles@[ii].student == caller);
                    assert(self.wf());
                    old(self).lemma_profile_at_index(caller, ii);
                    self.lemma_profile_at_index(caller, ii);
                    assert forall|s: Identity|
                        #[trigger] self.has_profile(s) <==> old(self).has_profile(s) || s
                            == caller by {
                        if self.has_profile(s) {
                            let k: int = self.profile_index(s);
                            assert(0 <= k < self.profiles@.len() && self.profiles@[k].student
                                == s);
                            if k != ii {
                                old(self).lemma_profile_at_index(s, k);
                            }
                        }
                        if old(self).has_profile(s) {
                            let k: int = old(self).profile_index(s);
                            assert(0 <= k < old(self).profiles@.len()
                                && old(self).profiles@[k].student == s);
                            if k != ii {
                                self.lemma_profile_at_index(s, k);
                            }
                        }
                    }
                    assert forall|s: Identity|
                        s != caller && old(self).has_profile(s) implies #[trigger] self.profile_at(
                            s,
                        ) == old(self).profile_at(s) by {
                        let k: int = old(self).profile_index(s);
                        assert(0 <= k < old(self).profiles@.len()
                            && old(self).profiles@[k].student == s);
                        assert(k != ii);
                        old(self).lemma_profile_at_index(s, k);
                        self.lemma_profile_at_index(s, k);
                    }
                }
                Ok(())
            },
            None => {
                let pid = self.program_id;
                let (_profile_addr, bump) = student_profile_address(&caller, &pid);
                let profile = StudentProfile {
                    student: caller,
                    total_credits_purchased: amount,
                    total_credits_spent: 0,
                    courses_completed: 0,
                    graduation_nft: None,
                    created_at: now,
                    bump,
                };
                let n = self.profiles.len();
                self.profiles.push(profile);
                proof {
                    let nn: int = n as int;
                    assert(forall|k: int|
                        0 <= k < nn ==> #[trigger] self.profiles@[k] == old(self).profiles@[k]);
                    assert(forall|k: int|
                        0 <= k < nn ==> (#[trigger] old(self).profiles@[k]).student != caller);
                    assert(self.profiles@[nn].student == caller);
                    assert(self.wf());
                    self.lemma_profile_at_index(caller, nn);
                    assert forall|s: Identity|
                        #[trigger] self.has_profile(s) <==> old(self).has_profile(s) || s
                            == caller by {
                        if self.has_profile(s) {
                            let k: int = self.profile_index(s);
                            assert(0 <= k < self.profiles@.len() && self.profiles@[k].student
                                == s);
                            if k < nn {
                                old(self).lemma_profile_at_index(s, k);
                            }
                        }
                        if old(self).has_profile(s) {
                            let k: int = old(self).profile_index(s);
                            assert(0 <= k < old(self).profiles@.len()
                                && old(self).profiles@[k].student == s);
                            self.lemma_profile_at_index(s, k);
                        }
                    }
                    assert forall|s: Identity|
                        s != caller && old(self).has_profile(s) implies #[trigger] self.profile_at(
                            s,
                        ) == old(self).profile_at(s) by {
                        let k: int = old(self).profile_index(s);
                        assert(0 <= k < old(self).profiles@.len()
                            && old(self).profiles@[k].student == s);
                        old(self).lemma_profile_at_index(s, k);
                        self.lemma_profile_at_index(s, k);
                    }
                }
                Ok(())
            },
        }
    }

    // ----- course registration -----

    /// The outcome a registration decides for a pre-state and its inputs.
    pub open spec fn register_course_result(self, caller: Identity, course_id: Seq<char>) -> Result<
        (),
        AcademicChainError,
    > {
        if !self.has_course(course_id) {
            Err(AcademicChainError::CourseNotFound)
        } else if !self.course_at(course_id).is_active {
            Err(AcademicChainError::CourseNotActive)
        } else if self.credits.balance_of(caller) < self.course_at(course_id).required_credits {
            Err(AcademicChainError::InsufficientCredits)
        } else if self.has_enrollment(caller, course_id) {
            Err(AcademicChainError::AlreadyEnrolled)
        } else if !self.has_profile(caller) {
            Err(AcademicChainError::ProfileNotFound)
        } else if self.spent_of(caller) + self.course_at(course_id).required_credits > u64::MAX {
            Err(AcademicChainError::ArithmeticOverflow)
        } else {
            Ok(())
        }
    }

    /// Register the caller for a course: burn the course's required
    /// credits from the caller's balance (the caller authorizing the burn
    /// of its own funds), create the enrollment, and add the credits to
    /// the caller's spent counter.  The caller's credit balance decreases
    /// by exactly `required_credits` and `total_credits_spent` increases
    /// by the same amount.
    pub fn register_course(&mut self, caller: Identity, course_id: String, now: i64) -> (r: Result<
        (),
        AcademicChainError,
    >)
        requires
            old(self).wf(),
        ensures
            final(self).wf(),
            r == old(self).register_course_result(caller, course_id@),
            r is Err ==> *final(self) == *old(self),
            r is Ok ==> {
                let required = old(self).course_at(course_id@).required_credits;
                &&& forall|x: Identity|
                    final(self).credits.balance_of(x) == (if x == caller {
                        (old(self).credits.balance_of(caller) - required) as u64
                    } else {
                        old(self).credits.balance_of(x)
                    })
                &&& final(self).has_enrollment(caller, course_id@)
                &&& {
                    let e = final(self).enrollment_at(caller, course_id@);
                    &&& e.student == caller
                    &&& e.course_id@ == course_id@
                    &&& e.credits_paid == required
                    &&& e.enrollment_date == now
                    &&& e.completion_date is None
                    &&& !e.is_completed
                    &&& e.grade == 0
                    &&& e.certificate_mint is None
                    &&& e.bump == derived_address(
                        enrollment_seeds(caller, course_id@),
                        old(self).program_id.bytes@,
                    ).1
                }
                &&& final(self).enrollments@.len() == old(self).enrollments@.len() + 1
                &&& forall|s: Identity, id: Seq<char>|
                    #[trigger] final(self).has_enrollment(s, id) <==> old(self).has_enrollment(
                        s,
                        id,
                    ) || (s == caller && id == course_id@)
                &&& forall|s: Identity, id: Seq<char>|
                    old(self).has_enrollment(s, id) ==> #[trigger] final(self).enrollment_at(s, id)
                        == old(self).enrollment_at(s, id)
                &&& forall|s: Identity|
                    #[trigger] final(self).has_profile(s) <==> old(self).has_profile(s)
                &&& {
                    let p = final(self).profile_at(caller);
                    &&& p.student == caller
                    &&& p.total_credits_purchased == old(self).purchased_of(caller)
                    &&& p.total_credits_spent == old(self).spent_of(caller) + required
                    &&& p.courses_completed == old(self).completed_of(caller)
                    &&& p.graduation_nft == old(self).profile_at(caller).graduation_nft
                    &&& p.created_at == old(self).profile_at(caller).created_at
                    &&& p.bump == old(self).profile_at(caller).bump
                }
                &&& forall|s: Identity|
                    s != caller && old(self).has_profile(s) ==> #[trigger] final(self).profile_at(
                        s,
                    ) == old(self).profile_at(s)
                &&& final(self).program_id == old(self).program_id
                &&& final(self).config == old(self).config
                &&& final(self).courses@ == old(self).courses@
                &&& final(self).native == old(self).native
            },
    {
        let course_slot = match self.find_course(&course_id) {
            Some(i) => i,
            None => {
                return Err(AcademicChainError::CourseNotFound);
            },
        };
        proof {
            self.lemma_course_at_index(course_id@, course_slot as int);
        }
        if !self.courses[course_slot].is_active {
            return Err(AcademicChainError::CourseNotActive);
        }
        let required = self.courses[course_slot].required_credits;
        let caller_credits = self.credits.balance(&caller);
        if caller_credits < required {
            return Err(AcademicChainError::InsufficientCredits);
        }
        if let Some(i) = self.find_enrollment(&caller, &course_id) {
            proof {
                self.lemma_enrollment_at_index(caller, course_id@, i as int);
            }
            return Err(AcademicChainError::AlreadyEnrolled);
        }
        let profile_slot = match self.find_profile(&caller) {
            Some(i) => i,
            None => {
                return Err(AcademicChainError::ProfileNotFound);
            },
        };
        proof {
            self.lemma_profile_at_index(caller, profile_slot as int);
        }
        if required > u64::MAX - self.profiles[profile_slot].total_credits_spent {
            return Err(AcademicChainError::ArithmeticOverflow);
        }
        self.credits.withdraw(&caller, required);
        let pid = self.program_id;
        let (_enrollment_addr, bump) = enrollment_address(&caller, &course_id, &pid);
        let ghost course_id_view = course_id@;
        let enrollment = CourseEnrollment {
            student: caller,
            course_id,
            credits_paid: required,
            enrollment_date: now,
            completion_date: None,
            is_completed: false,
            grade: 0,
            certificate_mint: None,
            bump,
        };
        let n = self.enrollments.len();
        self.enrollments.push(enrollment);
        let p = &self.profiles[profile_slot];
        let updated = StudentProfile {
            student: p.student,
            total_credits_purchased: p.total_credits_purchased,
            total_credits_spent: p.total_credits_spent + required,
            courses_completed: p.courses_completed,
            graduation_nft: p.graduation_nft,
            created_at: p.created_at,
            bump: p.bump,
        };
        self.profiles[profile_slot] = updated;
        proof {
            let nn: int = n as int;
            let ii: int = profile_slot as int;
            assert(forall|k: int|
                0 <= k < nn ==> #[trigger] self.enrollments@[k] == old(self).enrollments@[k]);
            assert(forall|k: int|
                0 <= k < nn ==> !((#[trigger] old(self).enrollments@[k]).student == caller
                    && old(self).enrollments@[k].course_id@ == course_id_view));
            assert(self.enrollments@[nn].student == caller);
            assert(self.enrollments@[nn].course_id@ == course_id_view);
            assert(str_bytes(course_id_view).len() <= MAX_COURSE_ID_LEN) by {
                assert(old(self).course_at(course_id_view).valid());
            }
            assert(forall|k: int|
                0 <= k < self.profiles@.len() && k != ii
                    ==> #[trigger] self.profiles@[k] == old(self).profiles@[k]);
            assert(self.profiles@[ii].student == caller);
            assert(self.wf());
            self.lemma_enrollment_at_index(caller, course_id_view, nn);
            old(self).lemma_profile_at_index(caller, ii);
            self.lemma_profile_at_index(caller, ii);
            assert forall|s: Identity, id: Seq<char>|
                #[trigger] self.has_enrollment(s, id) <==> old(self).has_enrollment(s, id) || (s
                    == caller && id == course_id_view) by {
                if self.has_enrollment(s, id) {
                    let k: int = self.enrollment_index(s, id);
                    assert(0 <= k < self.enrollments@.len() && self.enrollments@[k].student == s
                        && self.enrollments@[k].course_id@ == id);
                    if k < nn {
                        old(self).lemma_enrollment_at_index(s, id, k);
                    }
                }
                if old(self).has_enrollment(s, id) {
                    let k: int = old(self).enrollment_index(s, id);
                    assert(0 <= k < old(self).enrollments@.len()
                        && old(self).enrollments@[k].student == s
                        && old(self).enrollments@[k].course_id@ == id);
                    self.lemma_enrollment_at_index(s, id, k);
                }
            }
            assert forall|s: Identity, id: Seq<char>|
                old(self).has_enrollment(s, id) implies #[trigger] self.enrollment_at(s, id)
                    == old(self).enrollment_at(s, id) by {
                let k: int = old(self).enrollment_index(s, id);
                assert(0 <= k < old(self).enrollments@.len()
                    && old(self).enrollments@[k].student == s
                    && old(self).enrollments@[k].course_id@ == id);
                old(self).lemma_enrollment_at_index(s, id, k);
                self.lemma_enrollment_at_index(s, id, k);
            }
            assert forall|s: Identity|
                #[trigger] self.has_profile(s) <==> old(self).has_profile(s) by {
                if self.has_profile(s) {
                    let k: int = self.profile_index(s);
                    assert(0 <= k < self.profiles@.len() && self.profiles@[k].student == s);
                    if k != ii {
                        old(self).lemma_profile_at_index(s, k);
                    }
                }
                if old(self).has_profile(s) {
                    let k: int = old(self).profile_index(s);
                    assert(0 <= k < old(self).profiles@.len() && old(self).profiles@[k].student
                        == s);
                    if k != ii {
                        self.lemma_profile_at_index(s, k);
                    }
                }
            }
            assert forall|s: Identity|
                s != caller && old(self).has_profile(s) implies #[trigger] self.profile_at(s)
                    == old(self).profile_at(s) by {
                let k: int = old(self).profile_index(s);
                assert(0 <= k < old(self).profiles@.len() && old(self).profiles@[k].student == s);
                assert(k != ii);
                old(self).lemma_profile_at_index(s, k);
                self.lemma_profile_at_index(s, k);
            }
        }
        Ok(())
    }

    // ----- course completion -----

    /// The outcome a completion decides for a pre-state and its inputs.
    pub open spec fn complete_course_result(
        self,
        caller: Identity,
        student: Identity,
        course_id: Seq<char>,
        grade: u8,
    ) -> Result<(), AcademicChainError> {
        if !self.has_course(course_id) {
            Err(AcademicChainError::CourseNotFound)
        } else if caller != self.course_at(course_id).instructor {
            Err(AcademicChainError::UnauthorizedInstructor)
        } else if grade > MAX_GRADE {
            Err(AcademicChainError::InvalidGrade)
        } else if !self.has_enrollment(student, course_id) {
            Err(AcademicChainError::EnrollmentNotFound)
        } else if self.enrollment_at(student, course_id).is_completed {
            Err(AcademicChainError::AlreadyCompleted)
        } else if !self.has_profile(student) {
            Err(AcademicChainError::ProfileNotFound)
        } else if self.completed_of(student) + 1 > u16::MAX {
            Err(AcademicChainError::ArithmeticOverflow)
        } else {
            Ok(())
        }
    }

    /// Record completion of a course for a student.  Only the course's
    /// instructor may do so, the grade must lie in the accepted range,
    /// and completion is one-shot: a second invocation on the same
    /// enrollment is refused rather than overwriting the grade and
    /// double-counting the completion.
    pub fn complete_course(
        &mut self,
        caller: Identity,
        student: Identity,
        course_id: String,
        grade: u8,
        now: i64,
    ) -> (r: Result<(), AcademicChainError>)
        requires
            old(self).wf(),
        ensures
            final(self).wf(),
            r == old(self).complete_course_result(caller, student, course_id@, grade),
            r is Err ==> *final(self) == *old(self),
            r is Ok ==> {
                &&& forall|s: Identity, id: Seq<char>|
                    #[trigger] final(self).has_enrollment(s, id) <==> old(self).has_enrollment(
                        s,
                        id,
                    )
                &&& {
                    let e0 = old(self).enrollment_at(student, course_id@);
                    let e = final(self).enrollment_at(student, course_id@);
                    &&& e.student == e0.student
                    &&& e.course_id@ == e0.course_id@
                    &&& e.credits_paid == e0.credits_paid
                    &&& e.enrollment_date == e0.enrollment_date
                    &&& e.completion_date == Some(now)
                    &&& e.is_completed
                    &&& e.grade == grade
                    &&& e.certificate_mint == e0.certificate_mint
                    &&& e.bump == e0.bump
                }
                &&& forall|s: Identity, id: Seq<char>|
                    !(s == student && id == course_id@) && old(self).has_enrollment(s, id)
                        ==> #[trigger] final(self).enrollment_at(s, id) == old(
                        self,
                    ).enrollment_at(s, id)
                &&& forall|s: Identity|
                    #[trigger] final(self).has_profile(s) <==> old(self).has_profile(s)
                &&& {
                    let p0 = old(self).profile_at(student);
                    let p = final(self).profile_at(student);
                    &&& p.student == p0.student
                    &&& p.total_credits_purchased == p0.total_credits_purchased
                    &&& p.total_credits_spent == p0.total_credits_spent
                    &&& p.courses_completed == p0.courses_completed + 1
                    &&& p.graduation_nft == p0.graduation_nft
                    &&& p.created_at == p0.created_at
                    &&& p.bump == p0.bump
                }
                &&& forall|s: Identity|
                    s != student && old(self).has_profile(s) ==> #[trigger] final(self).profile_at(
                        s,
                    ) == old(self).profile_at(s)
                &&& final(self).program_id == old(self).program_id
                &&& final(self).config == old(self).config
                &&& final(self).courses@ == old(self).courses@
                &&& final(self).credits == old(self).credits
                &&& final(self).native == old(self).native
            },
    {
        let course_slot = match self.find_course(&course_id) {
            Some(i) => i,
            None => {
                return Err(AcademicChainError::CourseNotFound);
            },
        };
        proof {
            self.lemma_course_at_index(course_id@, course_slot as int);
        }
        if caller != self.courses[course_slot].instructor {
            return Err(AcademicChainError::UnauthorizedInstructor);
        }
        if grade > MAX_GRADE {
            return Err(AcademicChainError::InvalidGrade);
        }
        let enrollment_slot = match self.find_enrollment(&student, &course_id) {
            Some(i) => i,
            None => {
                return Err(AcademicChainError::EnrollmentNotFound);
            },
        };
        proof {
            self.lemma_enrollment_at_index(student, course_id@, enrollment_slot as int);
        }
        if self.enrollments[enrollment_slot].is_completed {
            return Err(AcademicChainError::AlreadyCompleted);
        }
        let profile_slot = match self.find_profile(&student) {
            Some(i) => i,
            None => {
                return Err(AcademicChainError::ProfileNotFound);
            },
        };
        proof {
            self.lemma_profile_at_index(student, profile_slot as int);
        }
        if self.profiles[profile_slot].courses_completed == u16::MAX {
            return Err(AcademicChainError::ArithmeticOverflow);
        }
        let e = &self.enrollments[enrollment_slot];
        let updated_enrollment = CourseEnrollment {
            student: e.student,
            course_id: e.course_id.clone(),
            credits_paid: e.credits_paid,
            enrollment_date: e.enrollment_date,
            completion_date: Some(now),
            is_completed: true,
            grade,
            certificate_mint: e.certificate_mint,
            bump: e.bump,
        };
        self.enrollments[enrollment_slot] = updated_enrollment;
        let p = &self.profiles[profile_slot];
        let updated_profile = StudentProfile {
            student: p.student,
            total_credits_purchased: p.total_credits_purchased,
            total_credits_spent: p.total_credits_spent,
            courses_completed: p.courses_completed + 1,
            graduation_nft: p.graduation_nft,
            created_at: p.created_at,
            bump: p.bump,
        };
        self.profiles[profile_slot] = updated_profile;
        proof {
            let ee: int = enrollment_slot as int;
            let ii: int = profile_slot as int;
            assert(forall|k: int|
                0 <= k < self.enrollments@.len() && k != ee
                    ==> #[trigger] self.enrollments@[k] == old(self).enrollments@[k]);
            assert(self.enrollments@[ee].student == student);
            assert(self.enrollments@[ee].course_id@ == course_id@);
            assert(forall|k: int|
                0 <= k < self.profiles@.len() && k != ii
                    ==> #[trigger] self.profiles@[k] == old(self).profiles@[k]);
            assert(self.profiles@[ii].student == student);
            assert(self.wf());
            old(self).lemma_enrollment_at_index(student, course_id@, ee);
            self.lemma_enrollment_at_index(student, course_id@, ee);
            old(self).lemma_profile_at_index(student, ii);
            self.lemma_profile_at_index(student, ii);
            assert forall|s: Identity, id: Seq<char>|
                #[trigger] self.has_enrollment(s, id) <==> old(self).has_enrollment(s, id) by {
                if self.has_enrollment(s, id) {
                    let k: int = self.enrollment_index(s, id);
                    assert(0 <= k < self.enrollments@.len() && self.enrollments@[k].student == s
                        && self.enrollments@[k].course_id@ == id);
                    if k != ee {
                        old(self).lemma_enrollment_at_index(s, id, k);
                    }
                }
                if old(self).has_enrollment(s, id) {
                    let k: int = old(self).enrollment_index(s, id);
                    assert(0 <= k < old(self).enrollments@.len()
                        && old(self).enrollments@[k].student == s
                        && old(self).enrollments@[k].course_id@ == id);
                    if k != ee {
                        self.lemma_enrollment_at_index(s, id, k);
                    }
                }
            }
            assert forall|s: Identity, id: Seq<char>|
                !(s == student && id == course_id@) && old(self).has_enrollment(s, id)
                    implies #[trigger] self.enrollment_at(s, id) == old(self).enrollment_at(
                    s,
                    id,
                ) by {
                let k: int = old(self).enrollment_index(s, id);
                assert(0 <= k < old(self).enrollments@.len()
                    && old(self).enrollments@[k].student == s
                    && old(self).enrollments@[k].course_id@ == id);
                assert(k != ee);
                old(self).lemma_enrollment_at_index(s, id, k);
                self.lemma_enrollment_at_index(s, id, k);
            }
            assert forall|s: Identity|
                #[trigger] self.has_profile(s) <==> old(self).has_profile(s) by {
                if self.has_profile(s) {
                    let k: int = self.profile_index(s);
                    assert(0 <= k < self.profiles@.len() && self.profiles@[k].student == s);
                    if k != ii {
                        old(self).lemma_profile_at_index(s, k);
                    }
                }
                if old(self).has_profile(s) {
                    let k: int = old(self).profile_index(s);
                    assert(0 <= k < old(self).profiles@.len() && old(self).profiles@[k].student
                        == s);
                    if k != ii {
                        self.lemma_profile_at_index(s, k);
                    }
                }
            }
            assert forall|s: Identity|
                s != student && old(self).has_profile(s) implies #[trigger] self.profile_at(s)
                    == old(self).profile_at(s) by {
                let k: int = old(self).profile_index(s);
                assert(0 <= k < old(self).profiles@.len() && old(self).profiles@[k].student == s);
                assert(k != ii);
                old(self).lemma_profile_at_index(s, k);
                self.lemma_profile_at_index(s, k);
            }
        }
        Ok(())
    }

    // ----- certificate issuance -----

    /// The outcome certificate issuance decides for a pre-state and its
    /// inputs.
    pub open spec fn mint_certificate_result(self, caller: Identity, course_id: Seq<char>) -> Result<
        (),
        AcademicChainError,
    > {
        if !self.has_enrollment(caller, course_id) {
            Err(AcademicChainError::EnrollmentNotFound)
        } else if !self.enrollment_at(caller, course_id).is_completed {
            Err(AcademicChainError::CourseNotCompleted)
        } else if self.enrollment_at(caller, course_id).certificate_mint is Some {
            Err(AcademicChainError::CertificateAlreadyMinted)
        } else {
            Ok(())
        }
    }

    /// Record the certificate marker on a completed, not yet certified
    /// enrollment of the caller.  The marker is the deterministically
    /// derived certificate address; `metadata_uri` is handed to the
    /// external marker-creation collaborator and not validated here.
    pub fn mint_certificate(
        &mut self,
        caller: Identity,
        course_id: String,
        _metadata_uri: String,
    ) -> (r: Result<(), AcademicChainError>)
        requires
            old(self).wf(),
        ensures
            final(self).wf(),
            r == old(self).mint_certificate_result(caller, course_id@),
            r is Err ==> *final(self) == *old(self),
            r is Ok ==> {
                &&& forall|s: Identity, id: Seq<char>|
                    #[trigger] final(self).has_enrollment(s, id) <==> old(self).has_enrollment(
                        s,
                        id,
                    )
                &&& {
                    let e0 = old(self).enrollment_at(caller, course_id@);
                    let e = final(self).enrollment_at(caller, course_id@);
                    &&& e.student == e0.student
                    &&& e.course_id@ == e0.course_id@
                    &&& e.credits_paid == e0.credits_paid
                    &&& e.enrollment_date == e0.enrollment_date
                    &&& e.completion_date == e0.completion_date
                    &&& e.is_completed == e0.is_completed
                    &&& e.grade == e0.grade
                    &&& e.certificate_mint is Some
                    &&& e.certificate_mint.unwrap().bytes@ == derived_address(
                        certificate_mint_seeds(caller, course_id@),
                        old(self).program_id.bytes@,
                    ).0
                    &&& e.bump == e0.bump
                }
                &&& forall|s: Identity, id: Seq<char>|
                    !(s == caller && id == course_id@) && old(self).has_enrollment(s, id)
                        ==> #[trigger] final(self).enrollment_at(s, id) == old(
                        self,
                    ).enrollment_at(s, id)
                &&& final(self).program_id == old(self).program_id
                &&& final(self).config == old(self).config
                &&& final(self).courses@ == old(self).courses@
                &&& final(self).profiles@ == old(self).profiles@
                &&& final(self).credits == old(self).credits
                &&& final(self).native == old(self).native
            },
    {
        let enrollment_slot = match self.find_enrollment(&caller, &course_id) {
            Some(i) => i,
            None => {
                return Err(AcademicChainError::EnrollmentNotFound);
            },
        };
        proof {
            self.lemma_enrollment_at_index(caller, course_id@, enrollment_slot as int);
        }
        if !self.enrollments[enrollment_slot].is_completed {
            return Err(AcademicChainError::CourseNotCompleted);
        }
        if self.enrollments[enrollment_slot].certificate_mint.is_some() {
            return Err(AcademicChainError::CertificateAlreadyMinted);
        }
        let pid = self.program_id;
        let (marker, _marker_bump) = certificate_mint_address(&caller, &course_id, &pid);
        let e = &self.enrollments[enrollment_slot];
        let updated_enrollment = CourseEnrollment {
            student: e.student,
            course_id: e.course_id.clone(),
            credits_paid: e.credits_paid,
            enrollment_date: e.enrollment_date,
            completion_date: e.completion_date,
            is_completed: e.is_completed,
            grade: e.grade,
            certificate_mint: Some(marker),
            bump: e.bump,
        };
        self.enrollments[enrollment_slot] = updated_enrollment;
        proof {
            let ee: int = enrollment_slot as int;
            assert(forall|k: int|
                0 <= k < self.enrollments@.len() && k != ee
                    ==> #[trigger] self.enrollments@[k] == old(self).enrollments@[k]);
            assert(self.enrollments@[ee].student == caller);
            assert(self.enrollments@[ee].course_id@ == course_id@);
            assert(self.wf());
            old(self).lemma_enrollment_at_index(caller, course_id@, ee);
            self.lemma_enrollment_at_index(caller, course_id@, ee);
            assert forall|s: Identity, id: Seq<char>|
                #[trigger] self.has_enrollment(s, id) <==> old(self).has_enrollment(s, id) by {
                if self.has_enrollment(s, id) {
                    let k: int = self.enrollment_index(s, id);
                    assert(0 <= k < self.enrollments@.len() && self.enrollments@[k].student == s
                        && self.enrollments@[k].course_id@ == id);
                    if k != ee {
                        old(self).lemma_enrollment_at_index(s, id, k);
                    }
                }
                if old(self).has_enrollment(s, id) {
                    let k: int = old(self).enrollment_index(s, id);
                    assert(0 <= k < old(self).enrollments@.len()
                        && old(self).enrollments@[k].student == s
                        && old(self).enrollments@[k].course_id@ == id);
                    if k != ee {
                        self.lemma_enrollment_at_index(s, id, k);
                    }
                }
            }
            assert forall|s: Identity, id: Seq<char>|
                !(s == caller && id == course_id@) && old(self).has_enrollment(s, id)
                    implies #[trigger] self.enrollment_at(s, id) == old(self).enrollment_at(
                    s,
                    id,
                ) by {
                let k: int = old(self).enrollment_index(s, id);
                assert(0 <= k < old(self).enrollments@.len()
                    && old(self).enrollments@[k].student == s
                    && old(self).enrollments@[k].course_id@ == id);
                assert(k != ee);
                old(self).lemma_enrollment_at_index(s, id, k);
                self.lemma_enrollment_at_index(s, id, k);
            }
        }
        Ok(())
    }

    // ----- graduation -----

    /// The outcome a graduation claim decides for a pre-state.  Only the
    /// number of required courses is checked against the completion
    /// counter; the host policy does not verify that the named courses
    /// themselves were completed.
    pub open spec fn claim_graduation_result(self, caller: Identity, required_count: int) -> Result<
        (),
        AcademicChainError,
    > {
        if !self.has_profile(caller) {
            Err(AcademicChainError::ProfileNotFound)
        } else if self.profile_at(caller).graduation_nft is Some {
            Err(AcademicChainError::CertificateAlreadyMinted)
        } else if self.profile_at(caller).courses_completed < required_count {
            Err(AcademicChainError::RequirementsNotMet)
        } else {
            Ok(())
        }
    }

    /// Record the graduation marker on the caller's profile when at
    /// least as many completions are counted as `required_courses`
    /// lists.  The marker is the deterministically derived graduation
    /// address and can be recorded at most once.
    pub fn claim_graduation(&mut self, caller: Identity, required_courses: Vec<String>) -> (r:
        Result<(), AcademicChainError>)
        requires
            old(self).wf(),
        ensures
            final(self).wf(),
            r == old(self).claim_graduation_result(caller, required_courses@.len() as int),
            r is Err ==> *final(self) == *old(self),
            r is Ok ==> {
                &&& forall|s: Identity|
                    #[trigger] final(self).has_profile(s) <==> old(self).has_profile(s)
                &&& {
                    let p0 = old(self).profile_at(caller);
                    let p = final(self).profile_at(caller);
                    &&& p.student == p0.student
                    &&& p.total_credits_purchased == p0.total_credits_purchased
                    &&& p.total_credits_spent == p0.total_credits_spent
                    &&& p.courses_completed == p0.courses_completed
                    &&& p.graduation_nft is Some
                    &&& p.graduation_nft.unwrap().bytes@ == derived_address(
                        graduation_mint_seeds(caller),
                        old(self).program_id.bytes@,
                    ).0
                    &&& p.created_at == p0.created_at
                    &&& p.bump == p0.bump
                }
                &&& forall|s: Identity|
                    s != caller && old(self).has_profile(s) ==> #[trigger] final(self).profile_at(
                        s,
                    ) == old(self).profile_at(s)
                &&& final(self).program_id == old(self).program_id
                &&& final(self).config == old(self).config
                &&& final(self).courses@ == old(self).courses@
                &&& final(self).enrollments@ == old(self).enrollments@
                &&& final(self).credits == old(self).credits
                &&& final(self).native == old(self).native
            },
    {
        let profile_slot = match self.find_profile(&caller) {
            Some(i) => i,
            None => {
                return Err(AcademicChainError::ProfileNotFound);
            },
        };
        proof {
            self.lemma_profile_at_index(caller, profile_slot as int);
        }
        if self.profiles[profile_slot].graduation_nft.is_some() {
            return Err(AcademicChainError::CertificateAlreadyMinted);
        }
        if (self.profiles[profile_slot].courses_completed as usize) < required_courses.len() {
            return Err(AcademicChainError::RequirementsNotMet);
        }
        let pid = self.program_id;
        let (marker, _marker_bump) = graduation_mint_address(&caller, &pid);
        let p = &self.profiles[profile_slot];
        let updated_profile = StudentProfile {
            student: p.student,
            total_credits_purchased: p.total_credits_purchased,
            total_credits_spent: p.total_credits_spent,
            courses_completed: p.courses_completed,
            graduation_nft: Some(marker),
            created_at: p.created_at,
            bump: p.bump,
        };
        self.profiles[profile_slot] = updated_profile;
        proof {
            let ii: int = profile_slot as int;
            assert(forall|k: int|
                0 <= k < self.profiles@.len() && k != ii
                    ==> #[trigger] self.profiles@[k] == old(self).profiles@[k]);
            assert(self.profiles@[ii].student == caller);
            assert(self.wf());
            old(self).lemma_profile_at_index(caller, ii);
            self.lemma_profile_at_index(caller, ii);
            assert forall|s: Identity|
                #[trigger] self.has_profile(s) <==> old(self).has_profile(s) by {
                if self.has_profile(s) {
                    let k: int = self.profile_index(s);
                    assert(0 <= k < self.profiles@.len() && self.profiles@[k].student == s);
                    if k != ii {
                        old(self).lemma_profile_at_index(s, k);
                    }
                }
                if old(self).has_profile(s) {
                    let k: int = old(self).profile_index(s);
                    assert(0 <= k < old(self).profiles@.len() && old(self).profiles@[k].student
                        == s);
                    if k != ii {
                        self.lemma_profile_at_index(s, k);
                    }
                }
            }
            assert forall|s: Identity|
                s != caller && old(self).has_profile(s) implies #[trigger] self.profile_at(s)
                    == old(self).profile_at(s) by {
                let k: int = old(self).profile_index(s);
                assert(0 <= k < old(self).profiles@.len() && old(self).profiles@[k].student == s);
                assert(k != ii);
                old(self).lemma_profile_at_index(s, k);
                self.lemma_profile_at_index(s, k);
            }
        }
        Ok(())
    }

    // ----- read-only access -----

    /// The course record under `course_id`, if one exists.
    pub fn get_course(&self, course_id: &String) -> (r: Option<&Course>)
        requires
            self.wf(),
        ensures
            match r {
                Some(c) => self.has_course(course_id@) && *c == self.course_at(course_id@),
                None => !self.has_course(course_id@),
            },
    {
        match self.find_course(course_id) {
            Some(i) => {
                proof {
                    self.lemma_course_at_index(course_id@, i as int);
                }
                Some(&self.courses[i])
            },
            None => None,
        }
    }

    /// The enrollment record for `(student, course_id)`, if one exists.
    pub fn get_enrollment(&self, student: &Identity, course_id: &String) -> (r: Option<
        &CourseEnrollment,
    >)
        requires
            self.wf(),
        ensures
            match r {
                Some(e) => self.has_enrollment(*student, course_id@) && *e == self.enrollment_at(
                    *student,
                    course_id@,
                ),
                None => !self.has_enrollment(*student, course_id@),
            },
    {
        match self.find_enrollment(student, course_id) {
            Some(i) => {
                proof {
                    self.lemma_enrollment_at_index(*student, course_id@, i as int);
                }
                Some(&self.enrollments[i])
            },
            None => None,
        }
    }

    /// The profile record for `student`, if one exists.
    pub fn get_profile(&self, student: &Identity) -> (r: Option<&StudentProfile>)
        requires
            self.wf(),
        ensures
            match r {
                Some(p) => self.has_profile(*student) && *p == self.profile_at(*student),
                None => !self.has_profile(*student),
            },
    {
        match self.find_profile(student) {
            Some(i) => {
                proof {
                    self.lemma_profile_at_index(*student, i as int);
                }
                Some(&self.profiles[i])
            },
            None => None,
        }
    }

    /// The caller's fungible credit balance.
    pub fn credit_balance(&self, id: &Identity) -> (r: u64)
        requires
            self.wf(),
        ensures
            r == self.credits.balance_of(*id),
    {
        self.credits.balance(id)
    }

    /// The caller's native-currency balance.
    pub fn native_balance(&self, id: &Identity) -> (r: u64)
        requires
            self.wf(),
        ensures
            r == self.native.balance_of(*id),
    {
        self.native.balance(id)
    }
}

// ----- laws of the state machine -----

/// The sum of a sequence of purchase amounts.
pub open spec fn sum_amounts(amounts: Seq<u64>) -> int
    decreases amounts.len(),
{
    if amounts.len() == 0 {
        0
    } else {
        sum_amounts(amounts.drop_last()) + amounts.last()
    }
}

/// Monotonic counters: over any run of successful credit purchases by
/// one student, where each step raises the purchased counter by that
/// step's amount (exactly what `purchase_credits` ensures on success),
/// the final counter equals the initial counter plus the sum of all
/// amounts, and the counter never decreases.
pub proof fn lemma_monotonic_counters(counters: Seq<u64>, amounts: Seq<u64>)
    requires
        counters.len() == amounts.len() + 1,
        forall|i: int| 0 <= i < amounts.len() ==> counters[i + 1] == counters[i] + amounts[i],
    ensures
        counters.last() == counters[0] + sum_amounts(amounts),
        counters[0] <= counters.last(),
    decreases amounts.len(),
{
    if amounts.len() == 0 {
    } else {
        let n: int = amounts.len() as int;
        assert(forall|i: int|
            0 <= i < n - 1 ==> counters.drop_last()[i + 1] == counters.drop_last()[i]
                + amounts.drop_last()[i]);
        lemma_monotonic_counters(counters.drop_last(), amounts.drop_last());
        assert(counters[n] == counters[n - 1] + amounts[n - 1]);
    }
}

/// One-shot certification: from any state that a successful certificate
/// issuance leads to (the enrollment now carries a marker), issuing a
/// certificate for the same student and course again is refused with
/// `CertificateAlreadyMinted`.
pub proof fn lemma_one_shot_certification(
    pre: AcademicChain,
    post: AcademicChain,
    student: Identity,
    course_id: Seq<char>,
)
    requires
        pre.wf(),
        post.wf(),
        pre.mint_certificate_result(student, course_id) is Ok,
        post.has_enrollment(student, course_id),
        post.enrollment_at(student, course_id).certificate_mint is Some,
    ensures
        post.mint_certificate_result(student, course_id) == Err::<(), AcademicChainError>(
            AcademicChainError::CertificateAlreadyMinted,
        ),
{
    let i: int = post.enrollment_index(student, course_id);
    assert(0 <= i < post.enrollments@.len() && post.enrollments@[i].student == student
        && post.enrollments@[i].course_id@ == course_id);
    assert(post.enrollments@[i].valid());
}

/// Single creation of courses: creating a course whose identifier is
/// already taken is refused with `DuplicateCourse` whenever the inputs
/// themselves are acceptable.  The decision never consults a
/// disambiguation nonce, so no choice of nonce can bypass it.
pub proof fn lemma_single_course_creation(
    chain: AcademicChain,
    course_id: Seq<char>,
    course_name: Seq<char>,
    required_credits: u64,
)
    requires
        str_bytes(course_id).len() <= MAX_COURSE_ID_LEN,
        str_bytes(course_name).len() <= MAX_COURSE_NAME_LEN,
        required_credits > 0,
        chain.has_course(course_id),
    ensures
        chain.create_course_result(course_id, course_name, required_credits) == Err::<
            (),
            AcademicChainError,
        >(AcademicChainError::DuplicateCourse),
{
}

/// Single creation of enrollments: registering a student who is already
/// enrolled in a course is refused with `AlreadyEnrolled` whenever the
/// course is active and the student's balance covers it.
pub proof fn lemma_single_enrollment(chain: AcademicChain, student: Identity, course_id: Seq<char>)
    requires
        chain.has_course(course_id),
        chain.course_at(course_id).is_active,
        chain.credits.balance_of(student) >= chain.course_at(course_id).required_credits,
        chain.has_enrollment(student, course_id),
    ensures
        chain.register_course_result(student, course_id) == Err::<(), AcademicChainError>(
            AcademicChainError::AlreadyEnrolled,
        ),
{
}

/// In a well-formed chain the key alone determines a course record:
/// two live records never share a key, whatever their nonces.
pub proof fn lemma_course_key_determines_record(chain: AcademicChain, i: int, j: int)
    requires
        chain.wf(),
        0 <= i < chain.courses@.len(),
        0 <= j < chain.courses@.len(),
        chain.courses@[i].course_id@ == chain.courses@[j].course_id@,
    ensures
        i == j,
{
}

} // verus!
