use vstd::prelude::*;

verus! {

pub const AIM_TRIAL_TYPE: &'static str = "STATIC_CLICK";
pub const STATIC_CLICK_TASK_VERSION: &'static str = "1";
pub const TRACKING_TRIAL_TYPE: &'static str = "TRACKING";
pub const TRACKING_TASK_VERSION: &'static str = "2";
pub const ONE_WALL_SIX_TRIAL_TYPE: &'static str = "ONE_WALL_SIX";
pub const ONE_WALL_SIX_TASK_VERSION: &'static str = "1";

/// The task configuration text of STATIC_CLICK.
pub open spec fn static_click_task_config_text() -> Seq<char> {
    "{\"hits_required\":5,\"target_radius\":0.25,\"aim_distance\":10,\"yaw_half_deg\":25,\"pitch_up_deg\":12,\"pitch_down_deg\":5,\"floor_clearance\":0.35,\"rng\":\"lcg\",\"rng_version\":\"1\"}"@
}

/// Task knobs of STATIC_CLICK: five hits on r=0.25 spheres ten units away,
/// within ±25° yaw, 12° up and 5° down, at least 0.35 above the floor.
pub fn static_click_task_config_json() -> (s: String)
    ensures
        s@ == static_click_task_config_text(),
{
    String::from_str(
        "{\"hits_required\":5,\"target_radius\":0.25,\"aim_distance\":10,\"yaw_half_deg\":25,\"pitch_up_deg\":12,\"pitch_down_deg\":5,\"floor_clearance\":0.35,\"rng\":\"lcg\",\"rng_version\":\"1\"}",
    )
}

/// The task configuration text of GRIDSHOT.
pub open spec fn gridshot_task_config_text() -> Seq<char> {
    "{\"grid_rows\":3,\"grid_cols\":3,\"concurrent_targets\":3,\"duration_secs\":60,\"spacing\":1,\"depth\":-6,\"radius\":0.25,\"rng\":\"lcg\",\"rng_version\":\"1\"}"@
}

/// Task knobs of GRIDSHOT: a 3×3 grid of unit spacing six units deep, three
/// live targets of radius 0.25, sixty seconds.
pub fn gridshot_task_config_json() -> (s: String)
    ensures
        s@ == gridshot_task_config_text(),
{
    String::from_str(
        "{\"grid_rows\":3,\"grid_cols\":3,\"concurrent_targets\":3,\"duration_secs\":60,\"spacing\":1,\"depth\":-6,\"radius\":0.25,\"rng\":\"lcg\",\"rng_version\":\"1\"}",
    )
}

/// The task configuration text of TRACKING.
pub open spec fn tracking_task_config_text() -> Seq<char> {
    "{\"duration_secs\":30,\"radius\":0.25,\"y\":1.6,\"z\":-6,\"x_min\":-1.5,\"x_max\":1.5,\"speed\":1.2,\"reverse_delay_min_secs\":1.5,\"reverse_delay_max_secs\":3.5,\"scoring_rule\":\"hold_rapid_fire\",\"fire_rate_hz\":20,\"rng\":\"lcg\",\"rng_version\":\"1\"}"@
}

/// Task knobs of TRACKING: thirty seconds of a r=0.25 target strafing at 1.2
/// between x=-1.5 and x=1.5 (y=1.6, z=-6), reversing every 1.5 to 3.5 s,
/// scored by hold-to-fire at 20 Hz.
pub fn tracking_task_config_json() -> (s: String)
    ensures
        s@ == tracking_task_config_text(),
{
    String::from_str(
        "{\"duration_secs\":30,\"radius\":0.25,\"y\":1.6,\"z\":-6,\"x_min\":-1.5,\"x_max\":1.5,\"speed\":1.2,\"reverse_delay_min_secs\":1.5,\"reverse_delay_max_secs\":3.5,\"scoring_rule\":\"hold_rapid_fire\",\"fire_rate_hz\":20,\"rng\":\"lcg\",\"rng_version\":\"1\"}",
    )
}

/// The task configuration text of FLICK_DEMAND.
pub open spec fn flick_demand_task_config_text() -> Seq<char> {
    "{\"duration_secs\":60,\"radius\":0.25,\"aim_distance\":10,\"yaw_set\":[-90,-60,-30,-10,10,30,60,90],\"pitch_deg\":0,\"scoring_rule\":\"click\",\"rng\":\"lcg\",\"rng_version\":\"1\"}"@
}

/// Task knobs of FLICK_DEMAND: sixty seconds of r=0.25 targets ten units
/// away at one of eight commanded yaw offsets, pitch 0, click scoring.
pub fn flick_demand_task_config_json() -> (s: String)
    ensures
        s@ == flick_demand_task_config_text(),
{
    String::from_str(
        "{\"duration_secs\":60,\"radius\":0.25,\"aim_distance\":10,\"yaw_set\":[-90,-60,-30,-10,10,30,60,90],\"pitch_deg\":0,\"scoring_rule\":\"click\",\"rng\":\"lcg\",\"rng_version\":\"1\"}",
    )
}

/// The task configuration text of ONE_WALL_SIX.
pub open spec fn one_wall_six_task_config_text() -> Seq<char> {
    "{\"duration_secs\":60,\"concurrent_targets\":6,\"radius\":0.12,\"wall_z\":-8,\"x_min\":-10,\"x_max\":10,\"y_min\":0.5,\"y_max\":5.5,\"min_separation\":0.29999998,\"scoring_rule\":\"click\",\"rng\":\"lcg\",\"rng_version\":\"1\"}"@
}

/// Task knobs of ONE_WALL_SIX: sixty seconds, six r=0.12 targets on the wall
/// z=-8 within x∈[-10,10], y∈[0.5,5.5], kept 2.5 radii apart (as computed in
/// single precision), click scoring.
pub fn one_wall_six_task_config_json() -> (s: String)
    ensures
        s@ == one_wall_six_task_config_text(),
{
    String::from_str(
        "{\"duration_secs\":60,\"concurrent_targets\":6,\"radius\":0.12,\"wall_z\":-8,\"x_min\":-10,\"x_max\":10,\"y_min\":0.5,\"y_max\":5.5,\"min_separation\":0.29999998,\"scoring_rule\":\"click\",\"rng\":\"lcg\",\"rng_version\":\"1\"}",
    )
}

/// The pitch model knobs: 0.07°/count for yaw and pitch at sensitivity 1,
/// +dy looks down, pitch clamped to ±89°, marked uncertain.
pub fn pitch_config_json() -> (s: String)
    ensures
        s@ == "{\"yaw_deg_per_count_at_sens_1\":0.07,\"pitch_deg_per_count_at_sens_1\":0.07,\"pitch_sign\":\"+dy_look_down\",\"pitch_clamp_deg\":89,\"certainty\":\"UNCERTAIN\"}"@,
{
    String::from_str(
        "{\"yaw_deg_per_count_at_sens_1\":0.07,\"pitch_deg_per_count_at_sens_1\":0.07,\"pitch_sign\":\"+dy_look_down\",\"pitch_clamp_deg\":89,\"certainty\":\"UNCERTAIN\"}",
    )
}

/// Hardware metadata placeholder: nothing is recorded yet.
pub fn hardware_config_json() -> (s: String)
    ensures
        s@ == "{\"mouse_model\":\"\",\"mouse_connection\":\"\",\"firmware\":\"\",\"display_refresh_hz\":null}"@,
{
    String::from_str(
        "{\"mouse_model\":\"\",\"mouse_connection\":\"\",\"firmware\":\"\",\"display_refresh_hz\":null}",
    )
}

} // verus!
